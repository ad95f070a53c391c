//! The build script's set of configuration flags: which ones are enabled,
//! which are declared, and the directives for cargo that follow from them.
//!
//! Each flag is reported once, the first time it is enabled (or declared);
//! the caller prints the collected directives.
use vstd::prelude::*;

verus! {

/// What a directive tells cargo about a flag.
#[derive(Clone, Copy, PartialEq, Eq, Debug, Structural)]
pub enum CfgKind {
    /// `cargo:rustc-cfg=<name>`: the flag is set.
    Enable,
    /// `cargo:rustc-check-cfg=cfg(<name>)`: the flag is a known name.
    Declare,
}

/// One directive for cargo.
#[derive(Clone, Debug)]
pub struct CfgLine {
    pub kind: CfgKind,
    pub name: String,
}

impl View for CfgLine {
    type V = (CfgKind, Seq<char>);

    open spec fn view(&self) -> (CfgKind, Seq<char>) {
        (self.kind, self.name@)
    }
}

/// Abstract state: the enabled and the declared flags, each in the order
/// of first mention, and the directives so far.
pub ghost struct CfgModel {
    pub enabled: Seq<Seq<char>>,
    pub declared: Seq<Seq<char>>,
    pub lines: Seq<(CfgKind, Seq<char>)>,
}

pub open spec fn spec_enable(m: CfgModel, cfg: Seq<char>) -> CfgModel {
    if m.enabled.contains(cfg) {
        m
    } else {
        CfgModel { enabled: m.enabled.push(cfg), lines: m.lines.push((CfgKind::Enable, cfg)), ..m }
    }
}

pub open spec fn spec_declare(m: CfgModel, cfg: Seq<char>) -> CfgModel {
    if m.declared.contains(cfg) {
        m
    } else {
        CfgModel { declared: m.declared.push(cfg), lines: m.lines.push((CfgKind::Declare, cfg)), ..m }
    }
}

pub open spec fn spec_enable_all(m: CfgModel, cfgs: Seq<Seq<char>>) -> CfgModel
    decreases cfgs.len(),
{
    if cfgs.len() == 0 {
        m
    } else {
        spec_enable(spec_enable_all(m, cfgs.drop_last()), cfgs.last())
    }
}

pub open spec fn spec_declare_all(m: CfgModel, cfgs: Seq<Seq<char>>) -> CfgModel
    decreases cfgs.len(),
{
    if cfgs.len() == 0 {
        m
    } else {
        spec_declare(spec_declare_all(m, cfgs.drop_last()), cfgs.last())
    }
}

pub open spec fn spec_set(m: CfgModel, cfg: Seq<char>, enable: bool) -> CfgModel {
    spec_declare(if enable { spec_enable(m, cfg) } else { m }, cfg)
}

pub open spec fn str_views(cfgs: Seq<&str>) -> Seq<Seq<char>> {
    cfgs.map_values(|c: &str| c@)
}

/// The flags enabled and declared, and the directives.
pub struct CfgSet {
    enabled: Vec<String>,
    declared: Vec<String>,
    lines: Vec<CfgLine>,
}

impl View for CfgSet {
    type V = CfgModel;

    closed spec fn view(&self) -> CfgModel {
        CfgModel {
            enabled: self.enabled@.map_values(|s: String| s@),
            declared: self.declared@.map_values(|s: String| s@),
            lines: self.lines@.map_values(|l: CfgLine| l@),
        }
    }
}

/// Whether `names` holds a string equal to `cfg`.
fn contains_name(names: &Vec<String>, cfg: &String) -> (r: bool)
    ensures
        r == names@.map_values(|s: String| s@).contains(cfg@),
{
    let ghost views = names@.map_values(|s: String| s@);
    let mut i: usize = 0;
    while i < names.len()
        invariant
            i <= names@.len(),
            views == names@.map_values(|s: String| s@),
            forall|k: int| 0 <= k < i ==> views[k] != cfg@,
        decreases names@.len() - i,
    {
        if names[i] == *cfg {
            assert(views[i as int] == cfg@);
            return true;
        }
        i = i + 1;
    }
    false
}

impl CfgSet {
    pub fn new() -> (r: Self)
        ensures
            r@ == (CfgModel { enabled: Seq::empty(), declared: Seq::empty(), lines: Seq::empty() }),
    {
        let r = CfgSet { enabled: Vec::new(), declared: Vec::new(), lines: Vec::new() };
        assert(r@.enabled =~= Seq::empty());
        assert(r@.declared =~= Seq::empty());
        assert(r@.lines =~= Seq::empty());
        r
    }

    /// The directives collected so far, in order.
    pub fn lines(&self) -> (r: &Vec<CfgLine>)
        ensures
            r@.map_values(|l: CfgLine| l@) == self@.lines,
    {
        &self.lines
    }

    /// Enable a flag; the first time, this adds its `Enable` directive.
    /// True when the flag was new.
    pub fn enable(&mut self, cfg: &str) -> (r: bool)
        ensures
            final(self)@ == spec_enable(old(self)@, cfg@),
            r == !old(self)@.enabled.contains(cfg@),
    {
        let name = cfg.to_owned();
        if contains_name(&self.enabled, &name) {
            return false;
        }
        let line = CfgLine { kind: CfgKind::Enable, name: name.clone() };
        self.enabled.push(name);
        self.lines.push(line);
        assert(self@.enabled =~= old(self)@.enabled.push(cfg@));
        assert(self@.lines =~= old(self)@.lines.push((CfgKind::Enable, cfg@)));
        true
    }

    /// Declare a flag without enabling it; the first time, this adds its
    /// `Declare` directive. True when the flag was new.
    pub fn declare(&mut self, cfg: &str) -> (r: bool)
        ensures
            final(self)@ == spec_declare(old(self)@, cfg@),
            r == !old(self)@.declared.contains(cfg@),
    {
        let name = cfg.to_owned();
        if contains_name(&self.declared, &name) {
            return false;
        }
        let line = CfgLine { kind: CfgKind::Declare, name: name.clone() };
        self.declared.push(name);
        self.lines.push(line);
        assert(self@.declared =~= old(self)@.declared.push(cfg@));
        assert(self@.lines =~= old(self)@.lines.push((CfgKind::Declare, cfg@)));
        true
    }

    /// Enable each flag of `cfgs` in turn.
    pub fn enable_all(&mut self, cfgs: &[&str])
        ensures
            final(self)@ == spec_enable_all(old(self)@, str_views(cfgs@)),
    {
        let mut i: usize = 0;
        while i < cfgs.len()
            invariant
                i <= cfgs@.len(),
                self@ == spec_enable_all(old(self)@, str_views(cfgs@.take(i as int))),
            decreases cfgs@.len() - i,
        {
            self.enable(cfgs[i]);
            assert(str_views(cfgs@.take(i + 1)).drop_last() =~= str_views(cfgs@.take(i as int)));
            i = i + 1;
        }
        assert(cfgs@.take(i as int) =~= cfgs@);
    }

    /// Declare each flag of `cfgs` in turn.
    pub fn declare_all(&mut self, cfgs: &[&str])
        ensures
            final(self)@ == spec_declare_all(old(self)@, str_views(cfgs@)),
    {
        let mut i: usize = 0;
        while i < cfgs.len()
            invariant
                i <= cfgs@.len(),
                self@ == spec_declare_all(old(self)@, str_views(cfgs@.take(i as int))),
            decreases cfgs@.len() - i,
        {
            self.declare(cfgs[i]);
            assert(str_views(cfgs@.take(i + 1)).drop_last() =~= str_views(cfgs@.take(i as int)));
            i = i + 1;
        }
        assert(cfgs@.take(i as int) =~= cfgs@);
    }

    /// Declare a flag, and enable it first when `enable` holds.
    pub fn set(&mut self, cfg: &str, enable: bool)
        ensures
            final(self)@ == spec_set(old(self)@, cfg@, enable),
    {
        if enable {
            self.enable(cfg);
        }
        self.declare(cfg);
    }
}

pub open spec fn is_prefix(p: Seq<char>, s: Seq<char>) -> bool {
    p.len() <= s.len() && s.subrange(0, p.len() as int) == p
}

pub open spec fn is_suffix(p: Seq<char>, s: Seq<char>) -> bool {
    p.len() <= s.len() && s.subrange(s.len() - p.len(), s.len() as int) == p
}

/// Relies on str::starts_with: true when `prefix` is a prefix of `s`.
#[verifier::external_body]
fn starts_with(s: &str, prefix: &str) -> (r: bool)
    ensures
        r == is_prefix(prefix@, s@),
{
    s.starts_with(prefix)
}

/// Relies on str::ends_with: true when `suffix` is a suffix of `s`.
#[verifier::external_body]
fn ends_with(s: &str, suffix: &str) -> (r: bool)
    ensures
        r == is_suffix(suffix@, s@),
{
    s.ends_with(suffix)
}

/// The architecture flags that a target triple enables.
pub open spec fn target_arch_cfgs(target: Seq<char>) -> Seq<Seq<char>> {
    if is_prefix("thumbv6m-"@, target) {
        seq!["cortex_m"@, "armv6m"@]
    } else if is_prefix("thumbv7m-"@, target) {
        seq!["cortex_m"@, "armv7m"@]
    } else if is_prefix("thumbv7em-"@, target) {
        seq!["cortex_m"@, "armv7m"@, "armv7em"@]
    } else if is_prefix("thumbv8m.base"@, target) {
        seq!["cortex_m"@, "armv8m"@, "armv8m_base"@]
    } else if is_prefix("thumbv8m.main"@, target) {
        seq!["cortex_m"@, "armv8m"@, "armv8m_main"@]
    } else {
        seq![]
    }
}

/// Every architecture flag that a target can enable.
pub open spec fn all_arch_cfgs() -> Seq<Seq<char>> {
    seq!["cortex_m"@, "armv6m"@, "armv7m"@, "armv7em"@, "armv8m"@, "armv8m_base"@, "armv8m_main"@]
}

/// Set the flags that describe the target platform named by the triple
/// `target`: its architecture flags, the declaration of all of them, and
/// `has_fpu` for a hard-float target.
pub fn set_target_cfgs(cfgs: &mut CfgSet, target: &str)
    ensures
        final(cfgs)@ == spec_set(
            spec_declare_all(spec_enable_all(old(cfgs)@, target_arch_cfgs(target@)), all_arch_cfgs()),
            "has_fpu"@,
            is_suffix("-eabihf"@, target@),
        ),
{
    if starts_with(target, "thumbv6m-") {
        let a = ["cortex_m", "armv6m"];
        assert(str_views(a@) =~= target_arch_cfgs(target@));
        cfgs.enable_all(&a);
    } else if starts_with(target, "thumbv7m-") {
        let a = ["cortex_m", "armv7m"];
        assert(str_views(a@) =~= target_arch_cfgs(target@));
        cfgs.enable_all(&a);
    } else if starts_with(target, "thumbv7em-") {
        let a = ["cortex_m", "armv7m", "armv7em"];
        assert(str_views(a@) =~= target_arch_cfgs(target@));
        cfgs.enable_all(&a);
    } else if starts_with(target, "thumbv8m.base") {
        let a = ["cortex_m", "armv8m", "armv8m_base"];
        assert(str_views(a@) =~= target_arch_cfgs(target@));
        cfgs.enable_all(&a);
    } else if starts_with(target, "thumbv8m.main") {
        let a = ["cortex_m", "armv8m", "armv8m_main"];
        assert(str_views(a@) =~= target_arch_cfgs(target@));
        cfgs.enable_all(&a);
    } else {
        assert(spec_enable_all(old(cfgs)@, target_arch_cfgs(target@)) == old(cfgs)@);
    }
    let all = ["cortex_m", "armv6m", "armv7m", "armv7em", "armv8m", "armv8m_base", "armv8m_main"];
    assert(str_views(all@) =~= all_arch_cfgs());
    cfgs.declare_all(&all);
    let fpu = ends_with(target, "-eabihf");
    cfgs.set("has_fpu", fpu);
}

} // verus!
