use py32_hal_core::time_driver::{
    reload_value, AlarmCallback, AlarmHandle, AllocateError, Firing, SysTickDriver, UNSET,
};

fn ticks(d: &mut SysTickDriver, n: u64) -> Vec<Firing> {
    let mut all = Vec::new();
    for _ in 0..n {
        all.extend(d.on_systick());
    }
    all
}

#[test]
fn reload_for_24_mhz_core_clock() {
    assert_eq!(reload_value(24_000_000, 1000), Some(23999));
    let mut d = SysTickDriver::new(1);
    ticks(&mut d, 1000);
    assert_eq!(d.now(), 1000);
}

#[test]
fn reload_for_1_mhz_core_clock() {
    assert_eq!(reload_value(1_000_000, 1000), Some(999));
}

#[test]
fn reload_fails_when_clock_slower_than_tick_rate() {
    assert_eq!(reload_value(500, 1000), None);
}

#[test]
fn reload_fails_on_zero_tick_rate() {
    assert_eq!(reload_value(24_000_000, 0), None);
}

#[test]
fn reload_limits_of_the_24_bit_counter() {
    assert_eq!(reload_value(0x00FF_FFFF, 1), Some(0x00FF_FFFE));
    assert_eq!(reload_value(0x0100_0000, 1), None);
    assert_eq!(reload_value(1000, 1000), Some(0));
}

#[test]
fn ticks_count_up_by_one_each() {
    let mut d = SysTickDriver::new(3);
    assert_eq!(d.now(), 0);
    let mut last = d.now();
    for n in 1..=25u64 {
        d.on_systick();
        assert_eq!(d.now(), n);
        assert!(d.now() >= last);
        last = d.now();
    }
    let before = d.now();
    ticks(&mut d, 17);
    assert_eq!(d.now(), before + 17);
}

#[test]
fn allocation_hands_out_distinct_handles_until_full() {
    let mut d = SysTickDriver::new(4);
    let mut seen = Vec::new();
    for i in 0..4u8 {
        let h = d.allocate_alarm().unwrap();
        assert_eq!(h.id(), i);
        assert!(!seen.contains(&h));
        seen.push(h);
    }
    assert_eq!(d.allocate_alarm(), Err(AllocateError::CapacityExceeded));
    assert_eq!(d.allocate_alarm(), Err(AllocateError::CapacityExceeded));
}

#[test]
fn three_alarm_build_fourth_allocation_fails() {
    let mut d = SysTickDriver::new(3);
    assert_eq!(d.allocate_alarm(), Ok(AlarmHandle { id: 0 }));
    assert_eq!(d.allocate_alarm(), Ok(AlarmHandle { id: 1 }));
    assert_eq!(d.allocate_alarm(), Ok(AlarmHandle { id: 2 }));
    assert_eq!(d.allocate_alarm(), Err(AllocateError::CapacityExceeded));
}

#[test]
fn empty_table_has_no_alarm() {
    let mut d = SysTickDriver::new(0);
    assert_eq!(d.capacity(), 0);
    assert_eq!(d.allocate_alarm(), Err(AllocateError::CapacityExceeded));
    assert!(d.on_systick().is_empty());
}

#[test]
fn elapsed_deadline_is_rejected_and_slot_unchanged() {
    let mut d = SysTickDriver::new(1);
    let h = d.allocate_alarm().unwrap();
    ticks(&mut d, 10);
    assert!(!d.set_alarm(h, 10));
    assert!(!d.set_alarm(h, 3));
    assert_eq!(d.deadline(h), UNSET);
    assert!(d.set_alarm(h, 20));
    assert!(!d.set_alarm(h, 5));
    assert_eq!(d.deadline(h), 20);
}

#[test]
fn alarm_fires_once_on_reaching_its_deadline() {
    let mut d = SysTickDriver::new(2);
    let h = d.allocate_alarm().unwrap();
    let cb = AlarmCallback { func: 7, ctx: 0x2000_0010 };
    d.set_alarm_callback(h, cb);
    ticks(&mut d, 5);
    assert!(d.set_alarm(h, 12));
    assert!(ticks(&mut d, 6).is_empty());
    let fired = d.on_systick();
    assert_eq!(d.now(), 12);
    assert_eq!(fired, vec![Firing { handle: h, callback: Some(cb) }]);
    assert_eq!(d.deadline(h), UNSET);
    assert!(ticks(&mut d, 30).is_empty());
}

#[test]
fn single_alarm_build_scenario() {
    let mut d = SysTickDriver::new(1);
    let h = d.allocate_alarm().unwrap();
    assert_eq!(h.id(), 0);
    let cb = AlarmCallback { func: 1, ctx: 99 };
    d.set_alarm_callback(h, cb);
    let t = d.now() + 50;
    assert!(d.set_alarm(h, t));
    assert!(ticks(&mut d, 49).is_empty());
    let fired = ticks(&mut d, 1);
    assert_eq!(fired.len(), 1);
    assert_eq!(fired[0].callback, Some(cb));
    assert!(ticks(&mut d, 100).is_empty());
}

#[test]
fn equal_deadlines_fire_in_allocation_order() {
    let mut d = SysTickDriver::new(3);
    let a = d.allocate_alarm().unwrap();
    let b = d.allocate_alarm().unwrap();
    let c = d.allocate_alarm().unwrap();
    d.set_alarm_callback(a, AlarmCallback { func: 0, ctx: 10 });
    d.set_alarm_callback(b, AlarmCallback { func: 0, ctx: 11 });
    d.set_alarm_callback(c, AlarmCallback { func: 0, ctx: 12 });
    assert!(d.set_alarm(c, 4));
    assert!(d.set_alarm(a, 4));
    assert!(d.set_alarm(b, 9));
    ticks(&mut d, 3);
    let fired = d.on_systick();
    let order: Vec<u8> = fired.iter().map(|f| f.handle.id()).collect();
    assert_eq!(order, vec![0, 2]);
    assert_eq!(fired[1].callback, Some(AlarmCallback { func: 0, ctx: 12 }));
    assert_eq!(d.deadline(b), 9);
}

#[test]
fn slot_without_callback_is_disarmed_when_due() {
    let mut d = SysTickDriver::new(1);
    let h = d.allocate_alarm().unwrap();
    assert!(d.set_alarm(h, 1));
    let fired = d.on_systick();
    assert_eq!(fired, vec![Firing { handle: h, callback: None }]);
    assert_eq!(d.deadline(h), UNSET);
}

#[test]
fn fired_slot_can_be_rearmed() {
    let mut d = SysTickDriver::new(1);
    let h = d.allocate_alarm().unwrap();
    assert!(d.set_alarm(h, 2));
    ticks(&mut d, 2);
    assert!(d.set_alarm(h, 5));
    assert!(ticks(&mut d, 2).is_empty());
    assert_eq!(ticks(&mut d, 1).len(), 1);
}

#[test]
fn callback_replacement_keeps_deadline() {
    let mut d = SysTickDriver::new(1);
    let h = d.allocate_alarm().unwrap();
    d.set_alarm_callback(h, AlarmCallback { func: 1, ctx: 1 });
    assert!(d.set_alarm(h, 3));
    d.set_alarm_callback(h, AlarmCallback { func: 2, ctx: 2 });
    assert_eq!(d.deadline(h), 3);
    let fired = ticks(&mut d, 3);
    assert_eq!(fired[0].callback, Some(AlarmCallback { func: 2, ctx: 2 }));
}
