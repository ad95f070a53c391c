//! Tick clock and alarm scheduler driven by the SysTick rollover interrupt.
//!
//! The driver state is a plain value: whoever owns the process-wide instance
//! serialises access to it by masking interrupts around every call.
use vstd::prelude::*;

verus! {

/// Deadline of a slot that is not armed (never armed, or already fired).
pub const UNSET: u64 = 0xFFFF_FFFF_FFFF_FFFF;

/// Largest period, in core clock cycles, that the 24-bit SysTick counter holds.
pub const SYSTICK_MAX_PERIOD: u64 = 0x00FF_FFFF;

/// The reload value for a core clock of `core_clock_hz` and a tick rate of
/// `tick_hz`, when the period between ticks fits the counter.
pub open spec fn spec_reload_value(core_clock_hz: u64, tick_hz: u64) -> Option<u32> {
    if tick_hz == 0 {
        None
    } else {
        let period = core_clock_hz / tick_hz;
        if 0 < period && period <= SYSTICK_MAX_PERIOD {
            Some((period - 1) as u32)
        } else {
            None
        }
    }
}

/// Reload value of the SysTick counter, so that it rolls over `tick_hz`
/// times per second at a core clock of `core_clock_hz`.
///
/// `None` when no such value exists: the tick rate is zero, exceeds the core
/// clock, or is so slow that the period does not fit in 24 bits.
pub fn reload_value(core_clock_hz: u64, tick_hz: u64) -> (r: Option<u32>)
    ensures
        r == spec_reload_value(core_clock_hz, tick_hz),
{
    match core_clock_hz.checked_div(tick_hz) {
        Some(period) => {
            if 0 < period && period <= SYSTICK_MAX_PERIOD {
                Some((period - 1) as u32)
            } else {
                None
            }
        },
        None => None,
    }
}

/// What to run when an alarm fires: a dispatch key naming a plain function,
/// and the opaque context handed to it. Nothing is captured.
#[derive(Clone, Copy, PartialEq, Eq, Debug, Structural)]
pub struct AlarmCallback {
    pub func: usize,
    pub ctx: usize,
}

/// Index of an allocated slot of the alarm table.
#[derive(Clone, Copy, PartialEq, Eq, Debug, Structural)]
pub struct AlarmHandle {
    pub id: u8,
}

impl AlarmHandle {
    pub fn id(&self) -> (r: u8)
        ensures
            r == self.id,
    {
        self.id
    }
}

/// One slot of the alarm table.
#[derive(Clone, Copy, PartialEq, Eq, Debug, Structural)]
pub struct AlarmState {
    /// The armed deadline, or `UNSET`.
    pub timestamp: u64,
    pub callback: Option<AlarmCallback>,
}

impl AlarmState {
    pub fn new() -> (r: Self)
        ensures
            r.timestamp == UNSET,
            r.callback.is_none(),
    {
        AlarmState { timestamp: UNSET, callback: None }
    }
}

/// An alarm that fired during one tick: its slot and the callback stored
/// there at that moment, which the caller runs in this order.
#[derive(Clone, Copy, PartialEq, Eq, Debug, Structural)]
pub struct Firing {
    pub handle: AlarmHandle,
    pub callback: Option<AlarmCallback>,
}

/// Returned by `allocate_alarm` once every slot of the table is handed out.
#[derive(Clone, Copy, PartialEq, Eq, Debug, Structural)]
pub enum AllocateError {
    CapacityExceeded,
}

/// Abstract state of the driver.
pub ghost struct DriverModel {
    /// Ticks since start.
    pub ticks: u64,
    /// Number of slots handed out so far; they are the first ones.
    pub allocated: nat,
    /// The whole table; its length is the capacity.
    pub slots: Seq<AlarmState>,
}

pub open spec fn is_armed(slot: AlarmState) -> bool {
    slot.timestamp != UNSET
}

/// An armed slot whose deadline has been reached at tick count `now`.
pub open spec fn is_due(slot: AlarmState, now: u64) -> bool {
    is_armed(slot) && slot.timestamp <= now
}

/// The slot after the due-check at tick count `now`: disarmed when due.
pub open spec fn after_check(slot: AlarmState, now: u64) -> AlarmState {
    if is_due(slot, now) {
        AlarmState { timestamp: UNSET, callback: slot.callback }
    } else {
        slot
    }
}

/// The alarms among the first `n` slots that are due at `now`, by increasing index.
pub open spec fn firings(slots: Seq<AlarmState>, now: u64, n: nat) -> Seq<Firing>
    decreases n,
{
    if n == 0 {
        Seq::empty()
    } else {
        let k = (n - 1) as nat;
        let prev = firings(slots, now, k);
        if is_due(slots[k as int], now) {
            prev.push(Firing { handle: AlarmHandle { id: k as u8 }, callback: slots[k as int].callback })
        } else {
            prev
        }
    }
}

/// One rollover interrupt: the count goes up by one, every slot that is due
/// at the new count is disarmed, and `fired` lists those slots in index order.
pub open spec fn tick_step(pre: DriverModel, post: DriverModel, fired: Seq<Firing>) -> bool {
    &&& post.ticks == pre.ticks + 1
    &&& post.allocated == pre.allocated
    &&& post.slots == pre.slots.map_values(|s: AlarmState| after_check(s, post.ticks))
    &&& fired == firings(pre.slots, post.ticks, pre.slots.len())
}

/// One call of `allocate_alarm`: the next slot while one is free, else
/// `CapacityExceeded` with nothing changed.
pub open spec fn alloc_step(pre: DriverModel, post: DriverModel, r: Result<AlarmHandle, AllocateError>) -> bool {
    &&& post.ticks == pre.ticks
    &&& post.slots == pre.slots
    &&& if pre.allocated < pre.slots.len() {
        &&& r == Ok::<AlarmHandle, AllocateError>(AlarmHandle { id: pre.allocated as u8 })
        &&& post.allocated == pre.allocated + 1
    } else {
        &&& r == Err::<AlarmHandle, AllocateError>(AllocateError::CapacityExceeded)
        &&& post.allocated == pre.allocated
    }
}

/// The tick counter and the alarm table.
pub struct SysTickDriver {
    ticks: u64,
    alarm_count: u8,
    alarms: Vec<AlarmState>,
}

impl View for SysTickDriver {
    type V = DriverModel;

    closed spec fn view(&self) -> DriverModel {
        DriverModel { ticks: self.ticks, allocated: self.alarm_count as nat, slots: self.alarms@ }
    }
}

impl SysTickDriver {
    /// The table holds at most 255 slots, so that every index fits a handle;
    /// slots past the allocated ones are unarmed and have no callback.
    pub open spec fn wf(&self) -> bool {
        &&& self@.slots.len() <= 255
        &&& self@.allocated <= self@.slots.len()
        &&& forall|i: int|
            self@.allocated <= i < self@.slots.len() ==> #[trigger] self@.slots[i] == AlarmState {
                timestamp: UNSET,
                callback: None,
            }
    }

    /// A driver at tick 0 with `capacity` free, unarmed slots.
    pub fn new(capacity: u8) -> (r: Self)
        ensures
            r.wf(),
            r@.ticks == 0,
            r@.allocated == 0,
            r@.slots == Seq::new(capacity as nat, |i: int| AlarmState { timestamp: UNSET, callback: None }),
    {
        let mut alarms: Vec<AlarmState> = Vec::new();
        let mut i: u8 = 0;
        while i < capacity
            invariant
                i <= capacity,
                alarms@ == Seq::new(i as nat, |k: int| AlarmState { timestamp: UNSET, callback: None }),
            decreases capacity - i,
        {
            alarms.push(AlarmState::new());
            i = i + 1;
            assert(alarms@ =~= Seq::new(i as nat, |k: int| AlarmState { timestamp: UNSET, callback: None }));
        }
        SysTickDriver { ticks: 0, alarm_count: 0, alarms }
    }

    /// Number of slots of the table.
    pub fn capacity(&self) -> (r: usize)
        ensures
            r == self@.slots.len(),
    {
        self.alarms.len()
    }

    /// Number of slots handed out so far.
    pub fn allocated(&self) -> (r: u8)
        ensures
            r == self@.allocated,
    {
        self.alarm_count
    }

    /// Ticks since start.
    pub fn now(&self) -> (r: u64)
        ensures
            r == self@.ticks,
    {
        self.ticks
    }

    /// Deadline of slot `alarm`, or `UNSET`.
    pub fn deadline(&self, alarm: AlarmHandle) -> (r: u64)
        requires
            self.wf(),
            alarm.id < self@.slots.len(),
        ensures
            r == self@.slots[alarm.id as int].timestamp,
    {
        self.alarms[alarm.id as usize].timestamp
    }

    /// Slot `n` is due at `current_time`: disarm it before anything runs its
    /// callback, and report the firing.
    fn check_and_trigger_alarm(&mut self, n: usize, current_time: u64) -> (r: Option<Firing>)
        requires
            old(self).wf(),
            n < old(self)@.slots.len(),
        ensures
            final(self).wf(),
            final(self)@.ticks == old(self)@.ticks,
            final(self)@.allocated == old(self)@.allocated,
            final(self)@.slots == old(self)@.slots.update(
                n as int,
                after_check(old(self)@.slots[n as int], current_time),
            ),
            r == (if is_due(old(self)@.slots[n as int], current_time) {
                Some(
                    Firing {
                        handle: AlarmHandle { id: n as u8 },
                        callback: old(self)@.slots[n as int].callback,
                    },
                )
            } else {
                None
            }),
    {
        let alarm_timestamp = self.alarms[n].timestamp;
        if alarm_timestamp != UNSET && current_time >= alarm_timestamp {
            let callback = self.alarms[n].callback;
            self.alarms.set(n, AlarmState { timestamp: UNSET, callback });
            Some(Firing { handle: AlarmHandle { id: n as u8 }, callback })
        } else {
            None
        }
    }

    /// The rollover interrupt: count one tick, then check every slot in
    /// index order against the new count. The alarms that fired come back
    /// in that order, each slot already disarmed, so a callback may re-arm
    /// its own slot.
    pub fn on_systick(&mut self) -> (fired: Vec<Firing>)
        requires
            old(self).wf(),
            old(self)@.ticks < UNSET,
        ensures
            final(self).wf(),
            tick_step(old(self)@, final(self)@, fired@),
    {
        self.ticks = self.ticks + 1;
        let current_ticks = self.ticks;
        let ghost pre = self@.slots;
        let mut fired: Vec<Firing> = Vec::new();
        let len = self.alarms.len();
        let mut n: usize = 0;
        while n < len
            invariant
                self.wf(),
                n <= len,
                len == pre.len(),
                self@.ticks == current_ticks,
                self@.ticks == old(self)@.ticks + 1,
                self@.allocated == old(self)@.allocated,
                pre == old(self)@.slots,
                self@.slots.len() == len,
                forall|k: int| 0 <= k < n ==> #[trigger] self@.slots[k] == after_check(pre[k], current_ticks),
                forall|k: int| n <= k < len ==> #[trigger] self@.slots[k] == pre[k],
                fired@ == firings(pre, current_ticks, n as nat),
            decreases len - n,
        {
            let r = self.check_and_trigger_alarm(n, current_ticks);
            match r {
                Some(f) => {
                    fired.push(f);
                },
                None => {},
            }
            n = n + 1;
        }
        assert(self@.slots =~= pre.map_values(|s: AlarmState| after_check(s, current_ticks)));
        fired
    }

    /// Hand out the next unused slot, or fail once all are taken.
    pub fn allocate_alarm(&mut self) -> (r: Result<AlarmHandle, AllocateError>)
        requires
            old(self).wf(),
        ensures
            final(self).wf(),
            alloc_step(old(self)@, final(self)@, r),
    {
        let id = self.alarm_count;
        if (id as usize) < self.alarms.len() {
            self.alarm_count = id + 1;
            Ok(AlarmHandle { id })
        } else {
            Err(AllocateError::CapacityExceeded)
        }
    }

    /// Store the callback of an allocated slot, replacing the previous one.
    pub fn set_alarm_callback(&mut self, alarm: AlarmHandle, callback: AlarmCallback)
        requires
            old(self).wf(),
            alarm.id < old(self)@.allocated,
        ensures
            final(self).wf(),
            final(self)@.ticks == old(self)@.ticks,
            final(self)@.allocated == old(self)@.allocated,
            final(self)@.slots == old(self)@.slots.update(
                alarm.id as int,
                AlarmState {
                    timestamp: old(self)@.slots[alarm.id as int].timestamp,
                    callback: Some(callback),
                },
            ),
    {
        let n = alarm.id as usize;
        let timestamp = self.alarms[n].timestamp;
        self.alarms.set(n, AlarmState { timestamp, callback: Some(callback) });
    }

    /// Arm an allocated slot for `timestamp` if that is still ahead of
    /// `now()`; otherwise leave the slot as it was and return false, so the
    /// caller acts at once.
    pub fn set_alarm(&mut self, alarm: AlarmHandle, timestamp: u64) -> (r: bool)
        requires
            old(self).wf(),
            alarm.id < old(self)@.allocated,
        ensures
            final(self).wf(),
            r == (timestamp > old(self)@.ticks),
            final(self)@.ticks == old(self)@.ticks,
            final(self)@.allocated == old(self)@.allocated,
            r ==> final(self)@.slots == old(self)@.slots.update(
                alarm.id as int,
                AlarmState {
                    timestamp,
                    callback: old(self)@.slots[alarm.id as int].callback,
                },
            ),
            !r ==> final(self)@.slots == old(self)@.slots,
    {
        let n = alarm.id as usize;
        let current_time = self.now();
        if timestamp <= current_time {
            return false;
        }
        let callback = self.alarms[n].callback;
        self.alarms.set(n, AlarmState { timestamp, callback });
        true
    }
}

/// What `firings` lists: due slots among the first `n`, each with the
/// callback it holds, by strictly increasing index, and every such slot.
pub proof fn lemma_firings(slots: Seq<AlarmState>, now: u64, n: nat)
    requires
        n <= slots.len() <= 255,
    ensures
        forall|j: int|
            0 <= j < firings(slots, now, n).len() ==> {
                let f = #[trigger] firings(slots, now, n)[j];
                &&& f.handle.id < n
                &&& is_due(slots[f.handle.id as int], now)
                &&& f.callback == slots[f.handle.id as int].callback
            },
        forall|a: int, b: int|
            0 <= a < b < firings(slots, now, n).len() ==> (#[trigger] firings(slots, now, n)[a]).handle.id
                < (#[trigger] firings(slots, now, n)[b]).handle.id,
        forall|h: int|
            0 <= h < n && #[trigger] is_due(slots[h], now) ==> exists|j: int|
                0 <= j < firings(slots, now, n).len() && (#[trigger] firings(slots, now, n)[j]).handle.id
                    == h,
    decreases n,
{
    if n > 0 {
        let k = (n - 1) as nat;
        lemma_firings(slots, now, k);
        let prev = firings(slots, now, k);
        if is_due(slots[k as int], now) {
            let cur = firings(slots, now, n);
            assert(cur[prev.len() as int].handle.id == k);
            assert forall|h: int| 0 <= h < n && #[trigger] is_due(slots[h], now) implies exists|j: int|
                0 <= j < cur.len() && (#[trigger] cur[j]).handle.id == h by {
                if h < k {
                    let j = choose|j: int| 0 <= j < prev.len() && (#[trigger] prev[j]).handle.id == h;
                    assert(cur[j] == prev[j]);
                } else {
                    assert(cur[prev.len() as int].handle.id == h);
                }
            }
        }
    }
}

/// The tick count only moves forward: across any run of rollover
/// interrupts, the count after the run is the count before it plus the
/// number of interrupts, and it never decreases between two points.
pub proof fn lemma_ticks_monotonic(states: Seq<DriverModel>, fired: Seq<Seq<Firing>>)
    requires
        states.len() == fired.len() + 1,
        forall|i: int| 0 <= i < fired.len() ==> tick_step(#[trigger] states[i], states[i + 1], fired[i]),
    ensures
        states.last().ticks == states[0].ticks + fired.len(),
        forall|i: int, j: int|
            0 <= i <= j < states.len() ==> (#[trigger] states[j]).ticks == (#[trigger] states[i]).ticks + (j - i),
    decreases fired.len(),
{
    if fired.len() > 0 {
        let n = fired.len() - 1;
        lemma_ticks_monotonic(states.take(n + 1), fired.take(n));
        assert forall|i: int, j: int| 0 <= i <= j < states.len() implies (#[trigger] states[j]).ticks
            == (#[trigger] states[i]).ticks + (j - i) by {
            if j < states.len() - 1 {
                assert(states.take(n + 1)[i] == states[i]);
                assert(states.take(n + 1)[j] == states[j]);
            } else if i < j {
                assert(states.take(n + 1)[i] == states[i]);
                assert(states.take(n + 1)[n] == states[n]);
                assert(tick_step(states[n], states[n + 1], fired[n]));
            }
        }
    }
}

proof fn lemma_alloc_prefix(
    states: Seq<DriverModel>,
    results: Seq<Result<AlarmHandle, AllocateError>>,
    i: int,
)
    requires
        states.len() == results.len() + 1,
        states[0].allocated == 0,
        0 <= i <= states[0].slots.len(),
        i < states.len(),
        forall|k: int| 0 <= k < results.len() ==> alloc_step(#[trigger] states[k], states[k + 1], results[k]),
    ensures
        states[i].allocated == i,
        states[i].slots == states[0].slots,
    decreases i,
{
    if i > 0 {
        lemma_alloc_prefix(states, results, i - 1);
        assert(alloc_step(states[i - 1], states[i], results[i - 1]));
    }
}

/// On a table of capacity K with nothing allocated yet, K + 1 consecutive
/// allocations hand out K distinct handles, 0 to K - 1 in order, and the
/// last one fails with `CapacityExceeded`.
pub proof fn lemma_allocation_exhaustion(
    states: Seq<DriverModel>,
    results: Seq<Result<AlarmHandle, AllocateError>>,
)
    requires
        states.len() == results.len() + 1,
        states[0].allocated == 0,
        states[0].slots.len() <= 255,
        results.len() == states[0].slots.len() + 1,
        forall|i: int| 0 <= i < results.len() ==> alloc_step(#[trigger] states[i], states[i + 1], results[i]),
    ensures
        forall|i: int|
            0 <= i < states[0].slots.len() ==> #[trigger] results[i] == Ok::<AlarmHandle, AllocateError>(
                AlarmHandle { id: i as u8 },
            ),
        forall|i: int, j: int|
            0 <= i < j < states[0].slots.len() ==> (#[trigger] results[i]) != (#[trigger] results[j]),
        results.last() == Err::<AlarmHandle, AllocateError>(AllocateError::CapacityExceeded),
{
    let cap = states[0].slots.len();
    assert forall|i: int| 0 <= i <= cap implies (#[trigger] states[i]).allocated == i && states[i].slots
        == states[0].slots by {
        lemma_alloc_prefix(states, results, i);
    }
    assert(alloc_step(states[cap as int], states[cap + 1int], results[cap as int]));
    assert forall|i: int| 0 <= i < cap implies #[trigger] results[i] == Ok::<AlarmHandle, AllocateError>(
        AlarmHandle { id: i as u8 },
    ) by {
        assert(alloc_step(states[i], states[i + 1], results[i]));
    }
    assert forall|i: int, j: int| 0 <= i < j < cap implies (#[trigger] results[i]) != (#[trigger] results[j]) by {
        assert(alloc_step(states[i], states[i + 1], results[i]));
        assert(alloc_step(states[j], states[j + 1], results[j]));
        assert(states[i].allocated == i && states[j].allocated == j);
    }
}

/// Alarms due in the same pass fire by increasing handle, which is the
/// order in which their slots were allocated.
pub proof fn lemma_tie_break(pre: DriverModel, post: DriverModel, fired: Seq<Firing>, h1: int, h2: int)
    requires
        tick_step(pre, post, fired),
        pre.slots.len() <= 255,
        0 <= h1 < h2 < pre.slots.len(),
        is_armed(pre.slots[h1]),
        pre.slots[h1].timestamp == pre.slots[h2].timestamp,
        pre.slots[h1].timestamp <= post.ticks,
    ensures
        exists|j1: int, j2: int|
            0 <= j1 < j2 < fired.len() && (#[trigger] fired[j1]).handle.id == h1 && (#[trigger] fired[j2]).handle.id
                == h2,
{
    let n = pre.slots.len();
    lemma_firings(pre.slots, post.ticks, n);
    assert(is_due(pre.slots[h1], post.ticks));
    assert(is_due(pre.slots[h2], post.ticks));
    let j1 = choose|j: int| 0 <= j < fired.len() && (#[trigger] fired[j]).handle.id == h1;
    let j2 = choose|j: int| 0 <= j < fired.len() && (#[trigger] fired[j]).handle.id == h2;
    if j2 <= j1 {
        if j2 < j1 {
            assert(fired[j2].handle.id < fired[j1].handle.id);
        }
    }
    assert(j1 < j2);
}

proof fn lemma_slot_held(states: Seq<DriverModel>, fired: Seq<Seq<Firing>>, h: int, i: int)
    requires
        states.len() == fired.len() + 1,
        forall|k: int| 0 <= k < fired.len() ==> tick_step(#[trigger] states[k], states[k + 1], fired[k]),
        0 <= h < states[0].slots.len(),
        0 <= i < states.len(),
        states[0].ticks + i < states[0].slots[h].timestamp,
    ensures
        states[i].slots.len() == states[0].slots.len(),
        states[i].slots[h] == states[0].slots[h],
        states[i].ticks == states[0].ticks + i,
    decreases i,
{
    if i > 0 {
        lemma_slot_held(states, fired, h, i - 1);
        assert(tick_step(states[i - 1], states[i], fired[i - 1]));
    }
}

/// An alarm armed for a deadline `t` ahead of the count fires exactly once
/// on the run of interrupts that brings the count to `t`: never before the
/// last one, once in the last one with the callback it held, and its slot
/// is disarmed after it.
pub proof fn lemma_single_fire(states: Seq<DriverModel>, fired: Seq<Seq<Firing>>, h: int)
    requires
        states.len() == fired.len() + 1,
        forall|i: int| 0 <= i < fired.len() ==> tick_step(#[trigger] states[i], states[i + 1], fired[i]),
        states[0].slots.len() <= 255,
        0 <= h < states[0].slots.len(),
        is_armed(states[0].slots[h]),
        states[0].ticks < states[0].slots[h].timestamp,
        states.last().ticks == states[0].slots[h].timestamp,
    ensures
        fired.len() >= 1,
        forall|i: int, j: int|
            0 <= i < fired.len() - 1 && 0 <= j < fired[i].len() ==> (#[trigger] fired[i][j]).handle.id != h,
        exists|j: int|
            0 <= j < fired.last().len() && (#[trigger] fired.last()[j]).handle.id == h
                && fired.last()[j].callback == states[0].slots[h].callback,
        forall|j1: int, j2: int|
            0 <= j1 < fired.last().len() && 0 <= j2 < fired.last().len() && (#[trigger] fired.last()[j1]).handle.id
                == h && (#[trigger] fired.last()[j2]).handle.id == h ==> j1 == j2,
        !is_armed(states.last().slots[h]),
{
    lemma_ticks_monotonic(states, fired);
    let n = fired.len() as int;
    let t = states[0].slots[h].timestamp;
    assert forall|i: int, j: int| 0 <= i < n - 1 && 0 <= j < fired[i].len() implies (#[trigger] fired[i][j]).handle.id
        != h by {
        lemma_slot_held(states, fired, h, i);
        assert(tick_step(states[i], states[i + 1], fired[i]));
        assert(states[i + 1].ticks == states[0].ticks + i + 1);
        lemma_firings(states[i].slots, states[i + 1].ticks, states[i].slots.len());
        let f = fired[i][j];
        if f.handle.id == h {
            assert(is_due(states[i].slots[h], states[i + 1].ticks));
        }
    }
    lemma_slot_held(states, fired, h, n - 1);
    let pre = states[n - 1];
    let post = states[n];
    assert(tick_step(pre, post, fired[n - 1]));
    assert(fired.last() == fired[n - 1]);
    lemma_firings(pre.slots, post.ticks, pre.slots.len());
    assert(is_due(pre.slots[h], post.ticks));
    assert forall|j1: int, j2: int|
        0 <= j1 < fired.last().len() && 0 <= j2 < fired.last().len() && (#[trigger] fired.last()[j1]).handle.id
            == h && (#[trigger] fired.last()[j2]).handle.id == h implies j1 == j2 by {
        if j1 < j2 {
            assert(fired.last()[j1].handle.id < fired.last()[j2].handle.id);
        } else if j2 < j1 {
            assert(fired.last()[j2].handle.id < fired.last()[j1].handle.id);
        }
    }
    assert(post.slots[h] == after_check(pre.slots[h], post.ticks));
}

} // verus!
