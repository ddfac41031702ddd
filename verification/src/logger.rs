//! Mapping of log targets to logging subsystems

use vstd::prelude::*;
use vstd::string::StrSliceExecFns;

verus! {

/// Whether `p` is a prefix of `s`
pub open spec fn has_prefix(s: Seq<char>, p: Seq<char>) -> bool {
    p.len() <= s.len() && s.subrange(0, p.len() as int) == p
}

/// Whether `::` starts at position `i`
pub open spec fn sep_at(s: Seq<char>, i: int) -> bool {
    0 <= i && i + 1 < s.len() && s[i] == ':' && s[i + 1] == ':'
}

/// The first module in a module path like `mod_a::mod_b::mod_c` or `mod_a`: everything
/// before the first `::`, or the whole path when it has none
pub open spec fn first_module(s: Seq<char>) -> Seq<char> {
    if exists|i: int| #[trigger] sep_at(s, i) {
        let i = choose|i: int| #[trigger] sep_at(s, i) && forall|j: int| 0 <= j < i ==> !sep_at(s, j);
        s.subrange(0, i)
    } else {
        s
    }
}

/// Whether the crate is used internally by the engine though its name does not start
/// with `wutengine`
pub open spec fn is_internally_used_external_crate(m: Seq<char>) -> bool {
    m == "naga"@ || m == "wgpu_hal"@ || m == "gilrs"@ || m == "wgpu_core"@ || m == "symphonia_core"@
}

/// The subsystem of a log target, and whether it is internal: the first module after a
/// `wutengine::` or `wutengine_` prefix (internal), or else the first module of the target,
/// which is internal only for a few crates the engine uses
pub open spec fn subsystem_spec(target: Seq<char>) -> (bool, Seq<char>) {
    if has_prefix(target, "wutengine::"@) {
        (true, first_module(target.subrange("wutengine::"@.len() as int, target.len() as int)))
    } else if has_prefix(target, "wutengine_"@) {
        (true, first_module(target.subrange("wutengine_"@.len() as int, target.len() as int)))
    } else {
        (is_internally_used_external_crate(first_module(target)), first_module(target))
    }
}

/// Whether `s` starts with `p`
fn starts_with(s: &str, p: &str) -> (r: bool)
    ensures
        r == has_prefix(s@, p@),
{
    let n = s.unicode_len();
    let m = p.unicode_len();
    if m > n {
        return false;
    }
    let mut i: usize = 0;
    while i < m
        invariant
            0 <= i <= m <= n,
            n == s@.len(),
            m == p@.len(),
            forall|j: int| 0 <= j < i ==> s@[j] == p@[j],
        decreases m - i,
    {
        if s.get_char(i) != p.get_char(i) {
            assert(s@.subrange(0, m as int)[i as int] != p@[i as int]);
            return false;
        }
        i += 1;
    }
    assert(s@.subrange(0, m as int) =~= p@);
    true
}

/// Whether `s` equals `p`
pub(crate) fn str_eq(s: &str, p: &str) -> (r: bool)
    ensures
        r == (s@ == p@),
{
    let b = s.unicode_len() == p.unicode_len() && starts_with(s, p);
    proof {
        if s@.len() == p@.len() && has_prefix(s@, p@) {
            assert(s@ =~= s@.subrange(0, p@.len() as int));
        }
        if s@ == p@ {
            assert(s@.subrange(0, p@.len() as int) =~= p@);
        }
    }
    b
}

/// Returns the first module in the given module path like `mod_a::mod_b::mod_c` or `mod_a`
fn first_module_exec(full: &str) -> (r: &str)
    ensures
        r@ == first_module(full@),
{
    let n = full.unicode_len();
    let mut i: usize = 0;
    while n > 0 && i < n - 1
        invariant
            0 <= i <= n,
            n == full@.len(),
            forall|j: int| 0 <= j < i ==> !sep_at(full@, j),
        decreases n - i,
    {
        if full.get_char(i) == ':' && full.get_char(i + 1) == ':' {
            assert(sep_at(full@, i as int));
            let ghost c = choose|c: int| #[trigger] sep_at(full@, c) && forall|j: int| 0 <= j < c ==> !sep_at(full@, j);
            proof {
                assert(forall|j: int| 0 <= j < i ==> !sep_at(full@, j));
                if c < i {
                    assert(!sep_at(full@, c));
                } else if c > i {
                    assert(!sep_at(full@, i as int));
                }
            }
            return full.substring_char(0, i);
        }
        i += 1;
    }
    proof {
        assert forall|j: int| !(#[trigger] sep_at(full@, j)) by {
            if 0 <= j < i {
            }
        }
    }
    full
}

/// Whether the crate is used internally by the engine though its name does not start
/// with `wutengine`
fn internally_used_external_crate(first: &str) -> (r: bool)
    ensures
        r == is_internally_used_external_crate(first@),
{
    str_eq(first, "naga") || str_eq(first, "wgpu_hal") || str_eq(first, "gilrs") || str_eq(first, "wgpu_core")
        || str_eq(first, "symphonia_core")
}

/// Given a log target, returns whether the target is internal (`true`) or external
/// (`false`), and the subsystem
pub fn subsystem_from_target(target: &str) -> (r: (bool, &str))
    ensures
        (r.0, r.1@) == subsystem_spec(target@),
{
    let engine_mod = "wutengine::";
    let engine_crate = "wutengine_";
    let n = target.unicode_len();
    if starts_with(target, engine_mod) {
        let rest = target.substring_char(engine_mod.unicode_len(), n);
        return (true, first_module_exec(rest));
    }
    if starts_with(target, engine_crate) {
        let rest = target.substring_char(engine_crate.unicode_len(), n);
        return (true, first_module_exec(rest));
    }
    let first = first_module_exec(target);
    if internally_used_external_crate(first) {
        return (true, first);
    }
    (false, first)
}

/// The most verbose level a logger lets through
#[derive(Debug, Clone, Copy, PartialEq, Eq, Structural)]
pub enum LevelFilter {
    /// Nothing
    Off,
    /// Errors
    Error,
    /// Warnings and above
    Warn,
    /// Information and above
    Info,
    /// Debug messages and above
    Debug,
    /// Everything
    Trace,
}

/// The level of a new subsystem logger: the configured level if there is one, else the
/// default for internal or for external subsystems
pub fn subsystem_level(configured: Option<LevelFilter>, is_internal: bool, internal_default: LevelFilter, external_default: LevelFilter) -> (r: LevelFilter)
    ensures
        r == match configured {
            Some(l) => l,
            None => if is_internal { internal_default } else { external_default },
        },
{
    match configured {
        Some(l) => l,
        None => if is_internal { internal_default } else { external_default },
    }
}

/// The loggers of the subsystems, one per subsystem name
pub struct SubsystemLoggers<L> {
    /// The subsystems with their loggers, in order of creation
    pub loggers: Vec<(String, L)>,
}

impl<L> SubsystemLoggers<L> {
    /// No two loggers share a subsystem
    pub open spec fn wf(&self) -> bool {
        forall|i: int, j: int| 0 <= i < j < self.loggers@.len() ==> (#[trigger] self.loggers@[i]).0@ != (#[trigger] self.loggers@[j]).0@
    }

    /// Some logger is for the subsystem
    pub open spec fn has(&self, subsystem: Seq<char>) -> bool {
        exists|i: int| 0 <= i < self.loggers@.len() && (#[trigger] self.loggers@[i]).0@ == subsystem
    }

    /// No loggers
    pub fn new() -> (r: Self)
        ensures
            r.wf(),
            r.loggers@.len() == 0,
    {
        SubsystemLoggers { loggers: Vec::new() }
    }

    /// Returns the logger of the subsystem, if it has one
    pub fn get(&self, subsystem: &str) -> (r: Option<&L>)
        ensures
            match r {
                Some(l) => exists|i: int| 0 <= i < self.loggers@.len() && (#[trigger] self.loggers@[i]).0@ == subsystem@
                    && self.loggers@[i].1 == *l,
                None => !self.has(subsystem@),
            },
    {
        let mut i: usize = 0;
        while i < self.loggers.len()
            invariant
                0 <= i <= self.loggers@.len(),
                forall|j: int| 0 <= j < i ==> (#[trigger] self.loggers@[j]).0@ != subsystem@,
            decreases self.loggers.len() - i,
        {
            if str_eq(self.loggers[i].0.as_str(), subsystem) {
                return Some(&self.loggers[i].1);
            }
            i += 1;
        }
        None
    }

    /// Adds the logger for the subsystem, unless the subsystem already has one (another
    /// thread may have created it in the meantime). Returns whether it was added
    pub fn insert_if_absent(&mut self, subsystem: &str, logger: L) -> (inserted: bool)
        requires
            old(self).wf(),
        ensures
            final(self).wf(),
            inserted == !old(self).has(subsystem@),
            inserted ==> final(self).loggers@.len() == old(self).loggers@.len() + 1
                && final(self).loggers@.subrange(0, old(self).loggers@.len() as int) == old(self).loggers@
                && final(self).loggers@.last().0@ == subsystem@ && final(self).loggers@.last().1 == logger,
            !inserted ==> final(self).loggers@ == old(self).loggers@,
    {
        if self.get(subsystem).is_some() {
            return false;
        }
        let ghost prev = self.loggers@;
        self.loggers.push((subsystem.to_owned(), logger));
        proof {
            let ls = self.loggers@;
            assert forall|i: int, j: int| 0 <= i < j < ls.len() implies (#[trigger] ls[i]).0@ != (#[trigger] ls[j]).0@ by {
                if j == prev.len() {
                    assert(ls[i] == prev[i]);
                } else {
                    assert(ls[i] == prev[i] && ls[j] == prev[j]);
                }
            }
            assert(ls.subrange(0, prev.len() as int) =~= prev);
        }
        true
    }
}

} // verus!
