//! ECS system scheduling. Systems of one phase are grouped into stages ("sets")
//! such that the systems within a stage never have clashing component borrows,
//! and every system runs in a later stage than all of its dependencies.

use std::cmp::Ordering;

use vstd::prelude::*;
use vstd::std_specs::cmp::PartialOrdSpecImpl;

verus! {

/// Where, in the process of running a single tick, the system is called
#[derive(Clone, Copy, PartialEq, Eq, Structural, Debug, PartialOrd, Ord, Hash)]
pub enum Phase {
    /// Called once each fixed update
    FixedUpdate,
    /// Called once each tick
    Update,
    /// Called once each tick, after the main update
    LateUpdate,
    /// Called after all standard frame logic, right before rendering takes place
    PreRender,
}

impl Phase {
    /// Returns the name of the phase
    pub fn str(self) -> (r: &'static str)
        ensures
            r@ == match self {
                Phase::FixedUpdate => "Fixed Update"@,
                Phase::Update => "Update"@,
                Phase::LateUpdate => "Late Update"@,
                Phase::PreRender => "Pre-render"@,
            },
    {
        match self {
            Phase::FixedUpdate => "Fixed Update",
            Phase::Update => "Update",
            Phase::LateUpdate => "Late Update",
            Phase::PreRender => "Pre-render",
        }
    }
}

/// The ID of a system: a raw number and the phase the system belongs to
#[derive(Clone, Copy, PartialEq, Eq, Structural, Debug)]
pub struct SystemId(pub u32, pub Phase);

impl SystemId {
    /// Returns the phase to which this system belongs
    pub fn phase(self) -> (r: Phase)
        ensures
            r == self.1,
    {
        self.1
    }

    /// Returns the raw integer ID of this system
    pub fn id(self) -> (r: u32)
        ensures
            r == self.0,
    {
        self.0
    }

    /// Returns a new system ID in the phase, higher than any ID handed out before until the
    /// 32-bit counter wraps around to zero
    pub fn next(generator: &mut SystemIdGenerator, phase: Phase) -> (r: SystemId)
        ensures
            r == SystemId(old(generator).next, phase),
            final(generator).next == next_raw_id(old(generator).next),
    {
        let id = SystemId(generator.next, phase);
        generator.next = if generator.next == u32::MAX { 0 } else { generator.next + 1 };
        id
    }
}

/// System IDs compare by their raw ID alone
pub open spec fn system_id_order(a: SystemId, b: SystemId) -> Option<Ordering> {
    if a.0 < b.0 {
        Some(Ordering::Less)
    } else if a.0 == b.0 {
        Some(Ordering::Equal)
    } else {
        Some(Ordering::Greater)
    }
}

impl PartialOrd for SystemId {
    fn partial_cmp(&self, other: &Self) -> (r: Option<Ordering>) {
        if self.0 < other.0 {
            Some(Ordering::Less)
        } else if self.0 == other.0 {
            Some(Ordering::Equal)
        } else {
            Some(Ordering::Greater)
        }
    }
}

impl PartialOrdSpecImpl for SystemId {
    open spec fn obeys_partial_cmp_spec() -> bool {
        true
    }

    open spec fn partial_cmp_spec(&self, other: &Self) -> Option<Ordering> {
        system_id_order(*self, *other)
    }
}

/// The raw ID handed out after `n`: the next number, wrapping around to zero after the
/// largest 32-bit number
pub open spec fn next_raw_id(n: u32) -> u32 {
    if n == u32::MAX {
        0
    } else {
        (n + 1) as u32
    }
}

/// The raw ID that the call after `calls` earlier calls hands out, from a generator whose
/// next ID was `start`
pub open spec fn raw_id_after(start: u32, calls: nat) -> u32
    decreases calls,
{
    if calls == 0 {
        start
    } else {
        next_raw_id(raw_id_after(start, (calls - 1) as nat))
    }
}

proof fn lemma_raw_id_after_counts(start: u32, calls: nat)
    requires
        start + calls <= u32::MAX,
    ensures
        raw_id_after(start, calls) == start + calls,
    decreases calls,
{
    if calls > 0 {
        lemma_raw_id_after_counts(start, (calls - 1) as nat);
    }
}

/// A system ID is higher than every ID handed out before it by the same generator, as long
/// as the generator has not wrapped around: in a run of calls of [SystemId::next] from a
/// generator whose next ID was `start`, call `j` hands out a higher raw ID than an earlier
/// call `i`
pub proof fn lemma_later_system_ids_higher(start: u32, i: nat, j: nat)
    requires
        i < j,
        start + j <= u32::MAX,
    ensures
        raw_id_after(start, i) < raw_id_after(start, j),
{
    lemma_raw_id_after_counts(start, i);
    lemma_raw_id_after_counts(start, j);
}

/// Hands out raw system IDs: 0, 1, 2, ...
pub struct SystemIdGenerator {
    /// The next raw ID to hand out
    pub next: u32,
}

impl SystemIdGenerator {
    /// A generator whose first ID is 0
    pub fn new() -> (r: Self)
        ensures
            r.next == 0,
    {
        SystemIdGenerator { next: 0 }
    }
}

/// A system waiting to be placed into the schedule. The component borrows are
/// given as opaque type keys
pub struct PendingSystem {
    /// The ID of the system
    pub system_id: SystemId,
    /// The phase in which the system runs
    pub phase: Phase,
    /// Human-readable name
    pub name: String,
    /// Systems that must have run before this one
    pub dependencies: Vec<SystemId>,
    /// Components borrowed immutably
    pub shared_borrows: Vec<u64>,
    /// Components borrowed mutably
    pub exclusive_borrows: Vec<u64>,
}

/// What the scheduler knows of a placed system: its ID, its dependencies,
/// and its shared and exclusive borrows
pub type Profile = (SystemId, Seq<SystemId>, Seq<u64>, Seq<u64>);

impl PendingSystem {
    /// The scheduling profile of this system
    pub open spec fn profile(&self) -> Profile {
        (self.system_id, self.dependencies@, self.shared_borrows@, self.exclusive_borrows@)
    }
}

/// Two systems conflict when one of them borrows mutably what the other borrows at all
pub open spec fn conflict(a: Profile, b: Profile) -> bool {
    exists|x: u64|
        (a.2.contains(x) && b.3.contains(x)) || (a.3.contains(x) && b.2.contains(x)) || (
        a.3.contains(x) && b.3.contains(x))
}

/// A stage of systems that may run in parallel
pub struct SystemSet {
    /// The IDs of the systems in this stage, in insertion order
    pub system_ids: Vec<SystemId>,
    /// The union of the shared borrows of the systems
    pub shared_borrows: Vec<u64>,
    /// The union of the exclusive borrows of the systems
    pub exclusive_borrows: Vec<u64>,
    /// The profiles of the systems in this stage
    pub members: Ghost<Seq<Profile>>,
}

impl SystemSet {
    /// An empty stage
    pub fn new() -> (r: Self)
        ensures
            r.system_ids@.len() == 0,
            r.shared_borrows@.len() == 0,
            r.exclusive_borrows@.len() == 0,
            r.members@.len() == 0,
            r.wf(),
    {
        SystemSet {
            system_ids: Vec::new(),
            shared_borrows: Vec::new(),
            exclusive_borrows: Vec::new(),
            members: Ghost(Seq::empty()),
        }
    }

    /// The borrow unions match the members, and no two members conflict
    pub open spec fn wf(&self) -> bool {
        &&& self.members@.len() == self.system_ids@.len()
        &&& forall|i: int|
            0 <= i < self.members@.len() ==> (#[trigger] self.members@[i]).0
                == self.system_ids@[i]
        &&& forall|x: u64|
            #[trigger] self.shared_borrows@.contains(x) <==> exists|i: int|
                0 <= i < self.members@.len() && (#[trigger] self.members@[i]).2.contains(x)
        &&& forall|x: u64|
            #[trigger] self.exclusive_borrows@.contains(x) <==> exists|i: int|
                0 <= i < self.members@.len() && (#[trigger] self.members@[i]).3.contains(x)
        &&& forall|i: int, j: int|
            0 <= i < self.members@.len() && 0 <= j < self.members@.len() && i != j ==> !conflict(
                #[trigger] self.members@[i],
                #[trigger] self.members@[j],
            )
    }

    /// Whether the system clashes with the borrows already in this stage
    pub open spec fn clashes_with(&self, sys: Profile) -> bool {
        exists|x: u64|
            (sys.2.contains(x) && self.exclusive_borrows@.contains(x)) || (sys.3.contains(x) && (
            self.shared_borrows@.contains(x) || self.exclusive_borrows@.contains(x)))
    }

    /// This stage with the system added to it
    pub open spec fn with_member(&self, sys: Profile, shared: Seq<u64>, exclusive: Seq<u64>) -> (
        Seq<SystemId>,
        Seq<u64>,
        Seq<u64>,
        Seq<Profile>,
    ) {
        (
            self.system_ids@.push(sys.0),
            self.shared_borrows@ + shared,
            self.exclusive_borrows@ + exclusive,
            self.members@.push(sys),
        )
    }
}

/// Returns whether `x` is in `v`
fn vec_contains_u64(v: &Vec<u64>, x: u64) -> (r: bool)
    ensures
        r == v@.contains(x),
{
    let mut i: usize = 0;
    while i < v.len()
        invariant
            0 <= i <= v.len(),
            forall|j: int| 0 <= j < i ==> v@[j] != x,
        decreases v.len() - i,
    {
        if v[i] == x {
            return true;
        }
        i += 1;
    }
    false
}

/// Returns whether `x` is in `v`
fn vec_contains_id(v: &Vec<SystemId>, x: SystemId) -> (r: bool)
    ensures
        r == v@.contains(x),
{
    let mut i: usize = 0;
    while i < v.len()
        invariant
            0 <= i <= v.len(),
            forall|j: int| 0 <= j < i ==> v@[j] != x,
        decreases v.len() - i,
    {
        if v[i] == x {
            return true;
        }
        i += 1;
    }
    false
}

/// Appends all of `src` to `dst`
fn extend_u64(dst: &mut Vec<u64>, src: &Vec<u64>)
    ensures
        final(dst)@ == old(dst)@ + src@,
{
    let mut i: usize = 0;
    while i < src.len()
        invariant
            0 <= i <= src.len(),
            dst@ == old(dst)@ + src@.subrange(0, i as int),
        decreases src.len() - i,
    {
        dst.push(src[i]);
        i += 1;
        assert(src@.subrange(0, i as int) == src@.subrange(0, i - 1).push(src@[i - 1]));
    }
    assert(src@.subrange(0, src@.len() as int) == src@);
}

/// Checks whether the borrows of `new_system` clash with the borrows of `set`:
/// a new shared borrow clashes with an existing exclusive one, and a new exclusive
/// borrow clashes with any existing borrow
pub fn has_clashing_borrows(set: &SystemSet, new_system: &PendingSystem) -> (r: bool)
    ensures
        r == set.clashes_with(new_system.profile()),
{
    let mut i: usize = 0;
    while i < new_system.shared_borrows.len()
        invariant
            0 <= i <= new_system.shared_borrows.len(),
            forall|j: int|
                0 <= j < i ==> !set.exclusive_borrows@.contains(
                    #[trigger] new_system.shared_borrows@[j],
                ),
        decreases new_system.shared_borrows.len() - i,
    {
        if vec_contains_u64(&set.exclusive_borrows, new_system.shared_borrows[i]) {
            assert(new_system.profile().2.contains(new_system.shared_borrows@[i as int]));
            return true;
        }
        i += 1;
    }
    let mut i: usize = 0;
    while i < new_system.exclusive_borrows.len()
        invariant
            0 <= i <= new_system.exclusive_borrows.len(),
            forall|j: int|
                0 <= j < i ==> !set.exclusive_borrows@.contains(
                    #[trigger] new_system.exclusive_borrows@[j],
                ) && !set.shared_borrows@.contains(new_system.exclusive_borrows@[j]),
        decreases new_system.exclusive_borrows.len() - i,
    {
        let b = new_system.exclusive_borrows[i];
        if vec_contains_u64(&set.shared_borrows, b) || vec_contains_u64(&set.exclusive_borrows, b) {
            assert(new_system.profile().3.contains(new_system.exclusive_borrows@[i as int]));
            return true;
        }
        i += 1;
    }
    proof {
        assert forall|x: u64|
            !((new_system.profile().2.contains(x) && set.exclusive_borrows@.contains(x)) || (
            new_system.profile().3.contains(x) && (set.shared_borrows@.contains(x)
                || set.exclusive_borrows@.contains(x)))) by {
            if new_system.shared_borrows@.contains(x) {
                let j = choose|j: int|
                    0 <= j < new_system.shared_borrows@.len() && new_system.shared_borrows@[j]
                        == x;
                assert(!set.exclusive_borrows@.contains(new_system.shared_borrows@[j]));
            }
            if new_system.exclusive_borrows@.contains(x) {
                let j = choose|j: int|
                    0 <= j < new_system.exclusive_borrows@.len()
                        && new_system.exclusive_borrows@[j] == x;
                assert(!set.exclusive_borrows@.contains(new_system.exclusive_borrows@[j]));
            }
        }
    }
    false
}

/// Adds the system to the stage, merging its borrows into the stage's borrows
pub fn insert_system_into_set(set: &mut SystemSet, new_system: &PendingSystem)
    requires
        old(set).wf(),
        !old(set).clashes_with(new_system.profile()),
    ensures
        final(set).wf(),
        (final(set).system_ids@, final(set).shared_borrows@, final(set).exclusive_borrows@,
            final(set).members@) == old(set).with_member(
            new_system.profile(),
            new_system.shared_borrows@,
            new_system.exclusive_borrows@,
        ),
{
    let ghost old_set = *set;
    let ghost p = new_system.profile();
    set.system_ids.push(new_system.system_id);
    extend_u64(&mut set.shared_borrows, &new_system.shared_borrows);
    extend_u64(&mut set.exclusive_borrows, &new_system.exclusive_borrows);
    set.members = Ghost(set.members@.push(p));
    proof {
        let n = old_set.members@.len() as int;
        assert forall|x: u64|
            #[trigger] set.shared_borrows@.contains(x) <==> exists|i: int|
                0 <= i < set.members@.len() && (#[trigger] set.members@[i]).2.contains(x) by {
            if set.shared_borrows@.contains(x) {
                let k = choose|k: int|
                    0 <= k < set.shared_borrows@.len() && set.shared_borrows@[k] == x;
                if k < old_set.shared_borrows@.len() {
                    assert(old_set.shared_borrows@[k] == x);
                    assert(old_set.shared_borrows@.contains(x));
                    let i = choose|i: int|
                        0 <= i < old_set.members@.len() && (
                        #[trigger] old_set.members@[i]).2.contains(x);
                    assert(set.members@[i] == old_set.members@[i]);
                } else {
                    assert(p.2[k - old_set.shared_borrows@.len()] == x);
                    assert(set.members@[n] == p);
                }
            }
            if exists|i: int| 0 <= i < set.members@.len() && (#[trigger] set.members@[i]).2.contains(x) {
                let i = choose|i: int|
                    0 <= i < set.members@.len() && (#[trigger] set.members@[i]).2.contains(x);
                if i < n {
                    assert(set.members@[i] == old_set.members@[i]);
                    assert(old_set.shared_borrows@.contains(x));
                    let k = choose|k: int|
                        0 <= k < old_set.shared_borrows@.len() && old_set.shared_borrows@[k] == x;
                    assert(set.shared_borrows@[k] == x);
                } else {
                    let k = choose|k: int| 0 <= k < p.2.len() && p.2[k] == x;
                    assert(set.shared_borrows@[old_set.shared_borrows@.len() + k] == x);
                }
            }
        }
        assert forall|x: u64|
            #[trigger] set.exclusive_borrows@.contains(x) <==> exists|i: int|
                0 <= i < set.members@.len() && (#[trigger] set.members@[i]).3.contains(x) by {
            if set.exclusive_borrows@.contains(x) {
                let k = choose|k: int|
                    0 <= k < set.exclusive_borrows@.len() && set.exclusive_borrows@[k] == x;
                if k < old_set.exclusive_borrows@.len() {
                    assert(old_set.exclusive_borrows@[k] == x);
                    assert(old_set.exclusive_borrows@.contains(x));
                    let i = choose|i: int|
                        0 <= i < old_set.members@.len() && (
                        #[trigger] old_set.members@[i]).3.contains(x);
                    assert(set.members@[i] == old_set.members@[i]);
                } else {
                    assert(p.3[k - old_set.exclusive_borrows@.len()] == x);
                    assert(set.members@[n] == p);
                }
            }
            if exists|i: int| 0 <= i < set.members@.len() && (#[trigger] set.members@[i]).3.contains(x) {
                let i = choose|i: int|
                    0 <= i < set.members@.len() && (#[trigger] set.members@[i]).3.contains(x);
                if i < n {
                    assert(set.members@[i] == old_set.members@[i]);
                    assert(old_set.exclusive_borrows@.contains(x));
                    let k = choose|k: int|
                        0 <= k < old_set.exclusive_borrows@.len() && old_set.exclusive_borrows@[k]
                            == x;
                    assert(set.exclusive_borrows@[k] == x);
                } else {
                    let k = choose|k: int| 0 <= k < p.3.len() && p.3[k] == x;
                    assert(set.exclusive_borrows@[old_set.exclusive_borrows@.len() + k] == x);
                }
            }
        }
        assert forall|i: int, j: int|
            0 <= i < set.members@.len() && 0 <= j < set.members@.len() && i != j implies !conflict(
            #[trigger] set.members@[i],
            #[trigger] set.members@[j],
        ) by {
            if i < n && j < n {
                assert(set.members@[i] == old_set.members@[i]);
                assert(set.members@[j] == old_set.members@[j]);
            } else {
                let other = if i < n { i } else { j };
                let m = old_set.members@[other];
                assert(set.members@[other] == m);
                if conflict(set.members@[i], set.members@[j]) {
                    let x = choose|x: u64|
                        (set.members@[i].2.contains(x) && set.members@[j].3.contains(x)) || (
                        set.members@[i].3.contains(x) && set.members@[j].2.contains(x)) || (
                        set.members@[i].3.contains(x) && set.members@[j].3.contains(x));
                    if m.2.contains(x) {
                        assert(old_set.shared_borrows@.contains(x));
                    }
                    if m.3.contains(x) {
                        assert(old_set.exclusive_borrows@.contains(x));
                    }
                    assert(old_set.clashes_with(p));
                }
            }
        }
    }
}


/// Whether `d` is the ID of a system in one of the first `o` stages
pub open spec fn id_in_prefix(sets: Seq<SystemSet>, o: int, d: SystemId) -> bool {
    exists|i: int| 0 <= i < o && i < sets.len() && (#[trigger] sets[i]).system_ids@.contains(d)
}

/// Whether all of `deps` are placed in the first `o` stages
pub open spec fn covers(sets: Seq<SystemSet>, o: int, deps: Seq<SystemId>) -> bool {
    forall|d: SystemId| #[trigger] deps.contains(d) ==> id_in_prefix(sets, o, d)
}

/// A list of stages is well formed when each stage is, and every member of a stage
/// has all of its dependencies in strictly earlier stages
pub open spec fn schedule_wf(sets: Seq<SystemSet>) -> bool {
    &&& forall|k: int| 0 <= k < sets.len() ==> (#[trigger] sets[k]).wf()
    &&& forall|k: int, i: int, d: SystemId|
        0 <= k < sets.len() && 0 <= i < sets[k].members@.len() && #[trigger] sets[k].members@[i].1.contains(d) ==> id_in_prefix(sets, k, d)
}

/// `o` is the first stage after which all dependencies are satisfied
pub open spec fn is_dependency_offset(sets: Seq<SystemSet>, deps: Seq<SystemId>, o: int) -> bool {
    &&& 0 <= o <= sets.len()
    &&& covers(sets, o, deps)
    &&& (o == 0 || !covers(sets, o - 1, deps))
}

/// `k` is the first stage, at or after `o`, whose borrows do not clash with the system
/// (or the end of the list, if all of them clash)
pub open spec fn is_first_free_stage(sets: Seq<SystemSet>, sys: Profile, o: int, k: int) -> bool {
    &&& o <= k <= sets.len()
    &&& (k < sets.len() ==> !sets[k].clashes_with(sys))
    &&& forall|j: int| o <= j < k ==> (#[trigger] sets[j]).clashes_with(sys)
}

/// `new` is `old` with the system added to stage `k`, which is a new stage at the end
/// when `k` is the length of `old`
pub open spec fn inserted_at(
    old: Seq<SystemSet>,
    new: Seq<SystemSet>,
    sys: &PendingSystem,
    k: int,
) -> bool {
    &&& 0 <= k <= old.len()
    &&& new.len() == if k == old.len() { old.len() + 1 } else { old.len() }
    &&& forall|j: int| 0 <= j < old.len() && j != k ==> new[j] == old[j]
    &&& (new[k].system_ids@, new[k].shared_borrows@, new[k].exclusive_borrows@, new[k].members@)
        == if k == old.len() {
        (
            seq![sys.system_id],
            sys.shared_borrows@,
            sys.exclusive_borrows@,
            seq![sys.profile()],
        )
    } else {
        old[k].with_member(sys.profile(), sys.shared_borrows@, sys.exclusive_borrows@)
    }
}

/// The members of each stage
pub open spec fn stage_members(sets: Seq<SystemSet>) -> Seq<Seq<Profile>> {
    Seq::new(sets.len(), |k: int| sets[k].members@)
}

/// Some member of the first `o` stages has the ID
pub open spec fn placed_before(stages: Seq<Seq<Profile>>, o: int, d: SystemId) -> bool {
    exists|k: int, i: int|
        0 <= k < o && k < stages.len() && 0 <= i < stages[k].len() && (#[trigger] stages[k][i]).0 == d
}

/// All of the dependencies are members of the first `o` stages
pub open spec fn deps_placed(stages: Seq<Seq<Profile>>, o: int, deps: Seq<SystemId>) -> bool {
    forall|d: SystemId| #[trigger] deps.contains(d) ==> placed_before(stages, o, d)
}

/// The first stage count, from `o` on, after which all dependencies are placed (the number
/// of stages, if there is none)
pub open spec fn dependency_stage(stages: Seq<Seq<Profile>>, deps: Seq<SystemId>, o: int) -> int
    decreases stages.len() - o,
{
    if o >= stages.len() || deps_placed(stages, o, deps) {
        o
    } else {
        dependency_stage(stages, deps, o + 1)
    }
}

/// The system conflicts with some member of the stage
pub open spec fn stage_clashes(stage: Seq<Profile>, sys: Profile) -> bool {
    exists|i: int| 0 <= i < stage.len() && conflict(sys, #[trigger] stage[i])
}

/// The first stage, from `k` on, with which the system does not clash (the number of
/// stages, if there is none)
pub open spec fn free_stage(stages: Seq<Seq<Profile>>, sys: Profile, k: int) -> int
    decreases stages.len() - k,
{
    if k >= stages.len() || !stage_clashes(stages[k], sys) {
        k
    } else {
        free_stage(stages, sys, k + 1)
    }
}

/// The stages with the system added: to the first stage after all of its dependencies with
/// which it does not clash, or to a new stage at the end when there is no such stage
pub open spec fn greedy_insert(stages: Seq<Seq<Profile>>, sys: Profile) -> Seq<Seq<Profile>> {
    let k = free_stage(stages, sys, dependency_stage(stages, sys.1, 0));
    if k >= stages.len() {
        stages.push(seq![sys])
    } else {
        stages.update(k, stages[k].push(sys))
    }
}

/// The stages built by adding the systems one by one, in their order
pub open spec fn greedy_schedule(systems: Seq<Profile>) -> Seq<Seq<Profile>>
    decreases systems.len(),
{
    if systems.len() == 0 {
        seq![]
    } else {
        greedy_insert(greedy_schedule(systems.drop_last()), systems.last())
    }
}

/// The sorted list with the system inserted after all systems of lower or equal raw ID
pub open spec fn insert_by_id(sorted: Seq<Profile>, p: Profile) -> Seq<Profile>
    decreases sorted.len(),
{
    if sorted.len() == 0 {
        seq![p]
    } else if sorted[0].0.0 > p.0.0 {
        seq![p] + sorted
    } else {
        seq![sorted[0]] + insert_by_id(sorted.drop_first(), p)
    }
}

/// The systems sorted by raw ID, systems of equal ID keeping their order
pub open spec fn sorted_by_raw_id(systems: Seq<Profile>) -> Seq<Profile>
    decreases systems.len(),
{
    if systems.len() == 0 {
        seq![]
    } else {
        insert_by_id(sorted_by_raw_id(systems.drop_last()), systems.last())
    }
}

/// The profiles of the systems of the phase, in manifest order
pub open spec fn phase_profiles(systems: Seq<PendingSystem>, phase: Phase) -> Seq<Profile>
    decreases systems.len(),
{
    if systems.len() == 0 {
        seq![]
    } else {
        let rest = phase_profiles(systems.drop_last(), phase);
        if systems.last().phase == phase {
            rest.push(systems.last().profile())
        } else {
            rest
        }
    }
}

/// The stages of a phase as the scheduler builds them: its systems, sorted by raw ID,
/// each added to the first stage after its dependencies with which it does not clash
pub open spec fn phase_stages(systems: Seq<PendingSystem>, phase: Phase) -> Seq<Seq<Profile>> {
    greedy_schedule(sorted_by_raw_id(phase_profiles(systems, phase)))
}

/// The profiles of the systems at the indices
pub open spec fn indexed_profiles(systems: Seq<PendingSystem>, idx: Seq<usize>) -> Seq<Profile> {
    idx.map_values(|i: usize| systems[i as int].profile())
}

proof fn lemma_insert_by_id_at(s: Seq<Profile>, p: Profile, pos: int)
    requires
        0 <= pos <= s.len(),
        forall|a: int| 0 <= a < pos ==> (#[trigger] s[a]).0.0 <= p.0.0,
        pos < s.len() ==> s[pos].0.0 > p.0.0,
    ensures
        insert_by_id(s, p) == s.insert(pos, p),
    decreases s.len(),
{
    if s.len() == 0 {
        assert(s.insert(pos, p) =~= seq![p]);
    } else if pos == 0 {
        assert(s.insert(0, p) =~= seq![p] + s);
    } else {
        let t = s.drop_first();
        assert forall|a: int| 0 <= a < pos - 1 implies (#[trigger] t[a]).0.0 <= p.0.0 by {
            assert(t[a] == s[a + 1]);
        }
        lemma_insert_by_id_at(t, p, pos - 1);
        assert(s.insert(pos, p) =~= seq![s[0]] + t.insert(pos - 1, p));
    }
}

proof fn lemma_covers_placed(sets: Seq<SystemSet>, o: int, deps: Seq<SystemId>)
    requires
        forall|k: int| 0 <= k < sets.len() ==> (#[trigger] sets[k]).wf(),
    ensures
        covers(sets, o, deps) == deps_placed(stage_members(sets), o, deps),
{
    let m = stage_members(sets);
    assert forall|d: SystemId| id_in_prefix(sets, o, d) == placed_before(m, o, d) by {
        if id_in_prefix(sets, o, d) {
            let k = choose|k: int| 0 <= k < o && k < sets.len() && (#[trigger] sets[k]).system_ids@.contains(d);
            assert(sets[k].wf());
            let i = choose|i: int| 0 <= i < sets[k].system_ids@.len() && sets[k].system_ids@[i] == d;
            assert(sets[k].members@[i].0 == sets[k].system_ids@[i]);
            assert(m[k][i].0 == d);
        }
        if placed_before(m, o, d) {
            let (k, i) = choose|k: int, i: int|
                0 <= k < o && k < m.len() && 0 <= i < m[k].len() && (#[trigger] m[k][i]).0 == d;
            assert(sets[k].wf());
            assert(sets[k].members@[i].0 == sets[k].system_ids@[i]);
            assert(sets[k].system_ids@[i] == d);
            assert(sets[k].system_ids@.contains(d));
        }
    }
    if covers(sets, o, deps) {
        assert forall|d: SystemId| #[trigger] deps.contains(d) implies placed_before(m, o, d) by {
            assert(id_in_prefix(sets, o, d));
        }
    }
    if deps_placed(m, o, deps) {
        assert forall|d: SystemId| #[trigger] deps.contains(d) implies id_in_prefix(sets, o, d) by {
            assert(placed_before(m, o, d));
        }
    }
}

proof fn lemma_clashes_members(set: SystemSet, sys: Profile)
    requires
        set.wf(),
    ensures
        set.clashes_with(sys) == stage_clashes(set.members@, sys),
{
    let ms = set.members@;
    if set.clashes_with(sys) {
        let x = choose|x: u64|
            (sys.2.contains(x) && set.exclusive_borrows@.contains(x)) || (sys.3.contains(x) && (
            set.shared_borrows@.contains(x) || set.exclusive_borrows@.contains(x)));
        if set.exclusive_borrows@.contains(x) && (sys.2.contains(x) || sys.3.contains(x)) {
            let i = choose|i: int| 0 <= i < ms.len() && (#[trigger] ms[i]).3.contains(x);
            assert(conflict(sys, ms[i]));
        } else {
            assert(set.shared_borrows@.contains(x) && sys.3.contains(x));
            let i = choose|i: int| 0 <= i < ms.len() && (#[trigger] ms[i]).2.contains(x);
            assert(conflict(sys, ms[i]));
        }
    }
    if stage_clashes(ms, sys) {
        let i = choose|i: int| 0 <= i < ms.len() && conflict(sys, #[trigger] ms[i]);
        let x = choose|x: u64|
            (sys.2.contains(x) && ms[i].3.contains(x)) || (sys.3.contains(x) && ms[i].2.contains(x)) || (
            sys.3.contains(x) && ms[i].3.contains(x));
        if ms[i].3.contains(x) {
            assert(set.exclusive_borrows@.contains(x));
        }
        if ms[i].2.contains(x) {
            assert(set.shared_borrows@.contains(x));
        }
        assert(set.clashes_with(sys));
    }
}

proof fn lemma_dependency_stage_is(sets: Seq<SystemSet>, deps: Seq<SystemId>, o: int, s: int)
    requires
        forall|k: int| 0 <= k < sets.len() ==> (#[trigger] sets[k]).wf(),
        is_dependency_offset(sets, deps, o),
        0 <= s <= o,
    ensures
        dependency_stage(stage_members(sets), deps, s) == o,
    decreases o - s,
{
    let m = stage_members(sets);
    if s == o {
        lemma_covers_placed(sets, o, deps);
    } else {
        lemma_covers_placed(sets, s, deps);
        if covers(sets, s, deps) {
            lemma_covers_monotone(sets, s, o - 1, deps);
        }
        lemma_dependency_stage_is(sets, deps, o, s + 1);
    }
}

proof fn lemma_free_stage_is(sets: Seq<SystemSet>, sys: Profile, o: int, k: int, s: int)
    requires
        forall|j: int| 0 <= j < sets.len() ==> (#[trigger] sets[j]).wf(),
        is_first_free_stage(sets, sys, o, k),
        0 <= o <= s <= k,
    ensures
        free_stage(stage_members(sets), sys, s) == k,
    decreases k - s,
{
    let m = stage_members(sets);
    if s == k {
        if k < sets.len() {
            lemma_clashes_members(sets[k], sys);
        }
    } else {
        assert(sets[s].clashes_with(sys));
        lemma_clashes_members(sets[s], sys);
        lemma_free_stage_is(sets, sys, o, k, s + 1);
    }
}

/// The step of [insert_system] is the step of [greedy_insert] on the members of the stages
proof fn lemma_inserted_greedily(old: Seq<SystemSet>, new: Seq<SystemSet>, sys: &PendingSystem, o: int, k: int)
    requires
        schedule_wf(old),
        is_dependency_offset(old, sys.dependencies@, o),
        is_first_free_stage(old, sys.profile(), o, k),
        inserted_at(old, new, sys, k),
    ensures
        stage_members(new) == greedy_insert(stage_members(old), sys.profile()),
{
    let m = stage_members(old);
    let p = sys.profile();
    lemma_dependency_stage_is(old, sys.dependencies@, o, 0);
    lemma_free_stage_is(old, p, o, k, o);
    assert(free_stage(m, p, dependency_stage(m, p.1, 0)) == k);
    if k == old.len() {
        assert(stage_members(new) =~= m.push(seq![p]));
    } else {
        assert(stage_members(new) =~= m.update(k, m[k].push(p)));
    }
}

/// Checks whether `d` is the ID of a system in one of the first `o` stages
fn id_in_first_stages(sets: &Vec<SystemSet>, o: usize, d: SystemId) -> (r: bool)
    requires
        o <= sets.len(),
    ensures
        r == id_in_prefix(sets@, o as int, d),
{
    let mut k: usize = 0;
    while k < o
        invariant
            0 <= k <= o,
            o <= sets.len(),
            forall|m: int| 0 <= m < k ==> !(#[trigger] sets@[m]).system_ids@.contains(d),
        decreases o - k,
    {
        if vec_contains_id(&sets[k].system_ids, d) {
            assert(sets@[k as int].system_ids@.contains(d));
            return true;
        }
        k += 1;
    }
    false
}

/// Checks whether all of `deps` are placed within the first `o` stages
fn deps_covered(sets: &Vec<SystemSet>, o: usize, deps: &Vec<SystemId>) -> (r: bool)
    requires
        o <= sets.len(),
    ensures
        r == covers(sets@, o as int, deps@),
{
    let mut i: usize = 0;
    while i < deps.len()
        invariant
            0 <= i <= deps.len(),
            o <= sets.len(),
            forall|j: int| 0 <= j < i ==> id_in_prefix(sets@, o as int, #[trigger] deps@[j]),
        decreases deps.len() - i,
    {
        let d = deps[i];
        if !id_in_first_stages(sets, o, d) {
            assert(deps@.contains(d));
            return false;
        }
        i += 1;
    }
    proof {
        assert forall|d: SystemId| #[trigger] deps@.contains(d) implies id_in_prefix(
            sets@,
            o as int,
            d,
        ) by {
            let j = choose|j: int| 0 <= j < deps@.len() && deps@[j] == d;
            assert(id_in_prefix(sets@, o as int, deps@[j]));
        }
    }
    true
}

/// Prefix coverage only grows with the prefix
proof fn lemma_covers_monotone(sets: Seq<SystemSet>, a: int, b: int, deps: Seq<SystemId>)
    requires
        a <= b,
        covers(sets, a, deps),
    ensures
        covers(sets, b, deps),
{
    assert forall|d: SystemId| #[trigger] deps.contains(d) implies id_in_prefix(sets, b, d) by {
        assert(id_in_prefix(sets, a, d));
        let i = choose|i: int| 0 <= i < a && i < sets.len() && (#[trigger] sets[i]).system_ids@.contains(d);
        assert(sets[i].system_ids@.contains(d));
    }
}

/// Inserts the system into the earliest stage that comes after all of its dependencies
/// and whose borrows do not clash with the system's, appending a new stage if needed
pub fn insert_system(sets: &mut Vec<SystemSet>, system: &PendingSystem)
    requires
        schedule_wf(old(sets)@),
        covers(old(sets)@, old(sets)@.len() as int, system.dependencies@),
    ensures
        schedule_wf(final(sets)@),
        forall|q: int, d: SystemId|
            id_in_prefix(old(sets)@, q, d) ==> #[trigger] id_in_prefix(final(sets)@, q, d),
        id_in_prefix(final(sets)@, final(sets)@.len() as int, system.system_id),
        exists|o: int, k: int|
            is_dependency_offset(old(sets)@, system.dependencies@, o) && is_first_free_stage(
                old(sets)@,
                system.profile(),
                o,
                k,
            ) && inserted_at(old(sets)@, final(sets)@, system, k),
{
    let ghost old_sets = sets@;
    let ghost p = system.profile();
    let mut set_offset: usize = 0;
    // First we skip forward through the stages until all our dependencies have been satisfied
    while !deps_covered(sets, set_offset, &system.dependencies)
        invariant
            set_offset <= sets.len(),
            sets@ == old_sets,
            covers(old_sets, old_sets.len() as int, system.dependencies@),
            set_offset == 0 || !covers(old_sets, set_offset - 1, system.dependencies@),
            p == system.profile(),
        decreases sets.len() - set_offset,
    {
        set_offset += 1;
    }
    let ghost o = set_offset as int;
    assert(is_dependency_offset(old_sets, system.dependencies@, o));
    // Now skip over the stages whose borrows clash with ours
    while set_offset < sets.len()
        invariant
            o <= set_offset <= sets.len(),
            sets@ == old_sets,
            forall|j: int| o <= j < set_offset ==> (#[trigger] old_sets[j]).clashes_with(p),
            p == system.profile(),
        ensures
            o <= set_offset <= sets.len(),
            sets@ == old_sets,
            forall|j: int| o <= j < set_offset ==> (#[trigger] old_sets[j]).clashes_with(p),
            set_offset < sets.len() ==> !old_sets[set_offset as int].clashes_with(p),
            p == system.profile(),
        decreases sets.len() - set_offset,
    {
        let clash = has_clashing_borrows(&sets[set_offset], system);

        if !clash {
            break;
        }
        set_offset += 1;
    }
    let ghost k = set_offset as int;
    assert(is_first_free_stage(old_sets, p, o, k));
    if set_offset >= sets.len() {
        sets.push(SystemSet::new());
    }
    let mut set = sets.remove(set_offset);
    assert(!set.clashes_with(p)) by {
        if k < old_sets.len() {
            assert(set == old_sets[k]);
        } else {
            assert(set.shared_borrows@.len() == 0 && set.exclusive_borrows@.len() == 0);
        }
    }
    assert(set.wf()) by {
        if k < old_sets.len() {
            assert(set == old_sets[k]);
        }
    }
    insert_system_into_set(&mut set, system);
    sets.insert(set_offset, set);
    proof {
        let new_sets = sets@;
        assert(new_sets[k] == set);
        assert forall|j: int| 0 <= j < old_sets.len() && j != k implies new_sets[j] == old_sets[j] by {
            if j < k {
                assert(new_sets[j] == old_sets[j]);
            } else {
                assert(new_sets[j] == old_sets[j]);
            }
        }
        assert(new_sets.len() == if k == old_sets.len() { old_sets.len() + 1 } else { old_sets.len() });
        if k == old_sets.len() {
            assert(set.system_ids@ =~= seq![system.system_id]);
            assert(set.shared_borrows@ =~= system.shared_borrows@);
            assert(set.exclusive_borrows@ =~= system.exclusive_borrows@);
            assert(set.members@ =~= seq![p]);
        }
        assert(inserted_at(old_sets, new_sets, system, k));
        assert(new_sets[k].system_ids@.last() == system.system_id);
        assert(new_sets[k].system_ids@.contains(system.system_id));
        assert(id_in_prefix(new_sets, new_sets.len() as int, system.system_id));
        // Stages only grew, so everything found in a prefix of the old list is still there
        assert forall|q: int, d: SystemId| id_in_prefix(old_sets, q, d) implies id_in_prefix(
            new_sets,
            q,
            d,
        ) by {
            let i = choose|i: int|
                0 <= i < q && i < old_sets.len() && (#[trigger] old_sets[i]).system_ids@.contains(d);
            if i == k {
                let m = choose|m: int|
                    0 <= m < old_sets[i].system_ids@.len() && old_sets[i].system_ids@[m] == d;
                assert(new_sets[i].system_ids@[m] == d);
            } else {
                assert(new_sets[i] == old_sets[i]);
            }
            assert(new_sets[i].system_ids@.contains(d));
        }
        assert forall|kk: int| 0 <= kk < new_sets.len() implies (#[trigger] new_sets[kk]).wf() by {
            if kk != k {
                assert(new_sets[kk] == old_sets[kk]);
            }
        }
        assert forall|kk: int, i: int, d: SystemId|
            0 <= kk < new_sets.len() && 0 <= i < new_sets[kk].members@.len() && #[trigger] new_sets[kk].members@[i].1.contains(d) implies id_in_prefix(
            new_sets,
            kk,
            d,
        ) by {
            if kk != k {
                assert(new_sets[kk] == old_sets[kk]);
                assert(id_in_prefix(old_sets, kk, d));
            } else if k < old_sets.len() && i < old_sets[k].members@.len() {
                assert(new_sets[kk].members@[i] == old_sets[k].members@[i]);
                assert(id_in_prefix(old_sets, kk, d));
            } else {
                assert(new_sets[kk].members@[i] == p);
                assert(system.dependencies@.contains(d));
                lemma_covers_monotone(old_sets, o, k, system.dependencies@);
                assert(id_in_prefix(old_sets, k, d));
            }
        }
    }
}


/// A set of systems to be scheduled
pub struct SystemManifest {
    /// The systems, in insertion order
    pub systems: Vec<PendingSystem>,
}

impl SystemManifest {
    /// A manifest without any systems
    pub fn empty() -> (r: Self)
        ensures
            r.systems@.len() == 0,
    {
        SystemManifest { systems: Vec::new() }
    }

    /// Moves all systems of `other` to the end of this manifest
    pub fn merge(&mut self, other: SystemManifest)
        ensures
            final(self).systems@ == old(self).systems@ + other.systems@,
    {
        let mut other = other;
        self.systems.append(&mut other.systems);
    }
}

/// Some system in `systems` has ID `d`, the same phase as system `i`, and a lower raw ID
pub open spec fn has_earlier_provider(systems: Seq<PendingSystem>, i: int, d: SystemId) -> bool {
    exists|j: int|
        0 <= j < systems.len() && (#[trigger] systems[j]).system_id == d && systems[j].phase
            == systems[i].phase && d.0 < systems[i].system_id.0
}

/// Every dependency of every system is a system of the same phase with a lower ID.
/// Schedules can only be built for such manifests
pub open spec fn dependencies_in_order(systems: Seq<PendingSystem>) -> bool {
    forall|i: int, d: SystemId|
        0 <= i < systems.len() && #[trigger] systems[i].dependencies@.contains(d)
            ==> has_earlier_provider(systems, i, d)
}

/// Checks [dependencies_in_order] for a manifest
pub fn dependencies_satisfiable(manifest: &SystemManifest) -> (r: bool)
    ensures
        r == dependencies_in_order(manifest.systems@),
{
    let systems = &manifest.systems;
    let n = systems.len();
    let mut i: usize = 0;
    while i < n
        invariant
            0 <= i <= n,
            n == systems@.len(),
            systems@ == manifest.systems@,
            forall|ii: int, d: SystemId|
                0 <= ii < i && #[trigger] systems@[ii].dependencies@.contains(d)
                    ==> has_earlier_provider(systems@, ii, d),
        decreases n - i,
    {
        let deps = &systems[i].dependencies;
        let mut t: usize = 0;
        while t < deps.len()
            invariant
                0 <= t <= deps.len(),
                0 <= i < n,
                n == systems@.len(),
                systems@ == manifest.systems@,
            systems@ == manifest.systems@,
                deps@ == systems@[i as int].dependencies@,
                forall|tt: int| 0 <= tt < t ==> has_earlier_provider(systems@, i as int, #[trigger] deps@[tt]),
            decreases deps.len() - t,
        {
            let d = deps[t];
            let mut j: usize = 0;
            let mut found = false;
            while j < n
                invariant
                    0 <= j <= n,
                    0 <= i < n,
                    n == systems@.len(),
                    systems@ == manifest.systems@,
                systems@ == manifest.systems@,
            systems@ == manifest.systems@,
                    found ==> has_earlier_provider(systems@, i as int, d),
                    !found ==> forall|jj: int| 0 <= jj < j ==> !((#[trigger] systems@[jj]).system_id == d
                            && systems@[jj].phase == systems@[i as int].phase && d.0
                            < systems@[i as int].system_id.0),
                decreases n - j,
            {
                if !found && systems[j].system_id == d && systems[j].phase == systems[i].phase
                    && d.0 < systems[i].system_id.0 {
                    found = true;
                    assert(systems@[j as int].system_id == d);
                }
                j += 1;
            }
            if !found {
                assert(systems@[i as int].dependencies@.contains(d)) by {
                    assert(deps@[t as int] == d);
                }
                assert(!has_earlier_provider(systems@, i as int, d));
                assert(!dependencies_in_order(systems@));
                return false;
            }
            t += 1;
        }
        proof {
            assert forall|d: SystemId| #[trigger] systems@[i as int].dependencies@.contains(d) implies has_earlier_provider(systems@, i as int, d) by {
                let tt = choose|tt: int| 0 <= tt < deps@.len() && deps@[tt] == d;
                assert(has_earlier_provider(systems@, i as int, deps@[tt]));
            }
        }
        i += 1;
    }
    true
}

/// The list `out` holds indices into `systems`, ordered by raw system ID
pub open spec fn sorted_by_id(systems: Seq<PendingSystem>, out: Seq<usize>) -> bool {
    &&& forall|a: int| 0 <= a < out.len() ==> (#[trigger] out[a]) < systems.len()
    &&& forall|a: int, b: int|
        0 <= a < b < out.len() ==> systems[#[trigger] out[a] as int].system_id.0 <= systems[#[trigger] out[b] as int].system_id.0
}

/// Sorts the given indices into `systems` by the raw system ID (stable)
fn sort_by_system_id(systems: &Vec<PendingSystem>, indices: &Vec<usize>) -> (out: Vec<usize>)
    requires
        forall|a: int| 0 <= a < indices@.len() ==> (#[trigger] indices@[a]) < systems@.len(),
    ensures
        sorted_by_id(systems@, out@),
        forall|x: usize| out@.contains(x) <==> indices@.contains(x),
        indexed_profiles(systems@, out@) == sorted_by_raw_id(indexed_profiles(systems@, indices@)),
{
    let mut out: Vec<usize> = Vec::new();
    let mut i: usize = 0;
    while i < indices.len()
        invariant
            0 <= i <= indices.len(),
            forall|a: int| 0 <= a < indices@.len() ==> (#[trigger] indices@[a]) < systems@.len(),
            sorted_by_id(systems@, out@),
            forall|x: usize| out@.contains(x) <==> indices@.subrange(0, i as int).contains(x),
            indexed_profiles(systems@, out@) == sorted_by_raw_id(
                indexed_profiles(systems@, indices@.subrange(0, i as int)),
            ),
        decreases indices.len() - i,
    {
        let x = indices[i];
        let key = systems[x].system_id.0;
        let mut pos: usize = 0;
        while pos < out.len() && systems[out[pos]].system_id.0 <= key
            invariant
                0 <= pos <= out.len(),
                sorted_by_id(systems@, out@),
                x < systems@.len(),
                key == systems@[x as int].system_id.0,
                forall|a: int| 0 <= a < pos ==> systems@[#[trigger] out@[a] as int].system_id.0 <= key,
            decreases out.len() - pos,
        {
            pos += 1;
        }
        let ghost prev = out@;
        out.insert(pos, x);
        proof {
            let ps = indexed_profiles(systems@, prev);
            let px = systems@[x as int].profile();
            assert forall|a: int| 0 <= a < pos implies (#[trigger] ps[a]).0.0 <= px.0.0 by {
                assert(systems@[prev[a] as int].system_id.0 <= key);
            }
            lemma_insert_by_id_at(ps, px, pos as int);
            assert(indexed_profiles(systems@, out@) =~= ps.insert(pos as int, px));
            let prefix = indexed_profiles(systems@, indices@.subrange(0, i + 1));
            assert(prefix.drop_last() =~= indexed_profiles(systems@, indices@.subrange(0, i as int)));
            assert(prefix.last() == px);
        }
        proof {
            assert forall|a: int, b: int|
                0 <= a < b < out@.len() implies systems@[#[trigger] out@[a] as int].system_id.0 <= systems@[#[trigger] out@[b] as int].system_id.0 by {
                if b < pos {
                } else if a < pos && b == pos {
                } else if a < pos {
                    assert(out@[b] == prev[b - 1]);
                } else if a == pos {
                    assert(out@[b] == prev[b - 1]);
                    if pos < prev.len() {
                        assert(systems@[prev[pos as int] as int].system_id.0 > key);
                        assert(systems@[prev[pos as int] as int].system_id.0 <= systems@[prev[b - 1] as int].system_id.0 || b - 1 == pos);
                    }
                } else {
                    assert(out@[a] == prev[a - 1]);
                    assert(out@[b] == prev[b - 1]);
                }
            }
            assert forall|a: int| 0 <= a < out@.len() implies (#[trigger] out@[a]) < systems@.len() by {
                if a < pos {
                } else if a > pos {
                    assert(out@[a] == prev[a - 1]);
                }
            }
            let sub_i = indices@.subrange(0, i as int);
            let sub_n = indices@.subrange(0, i + 1);
            assert(sub_n == sub_i.push(x));
            assert forall|y: usize| out@.contains(y) <==> sub_n.contains(y) by {
                if out@.contains(y) {
                    let a = choose|a: int| 0 <= a < out@.len() && out@[a] == y;
                    if a < pos {
                        assert(prev[a] == y);
                    } else if a > pos {
                        assert(prev[a - 1] == y);
                    }
                    if y != x {
                        assert(prev.contains(y));
                        assert(sub_i.contains(y));
                        let c = choose|c: int| 0 <= c < sub_i.len() && sub_i[c] == y;
                        assert(sub_n[c] == y);
                    } else {
                        assert(sub_n[i as int] == y);
                    }
                }
                if sub_n.contains(y) {
                    let c = choose|c: int| 0 <= c < sub_n.len() && sub_n[c] == y;
                    if c < i {
                        assert(sub_i[c] == y);
                        assert(prev.contains(y));
                        let a = choose|a: int| 0 <= a < prev.len() && prev[a] == y;
                        if a < pos {
                            assert(out@[a] == y);
                        } else {
                            assert(out@[a + 1] == y);
                        }
                    } else {
                        assert(out@[pos as int] == y);
                    }
                }
            }
        }
        i += 1;
    }
    assert(indices@.subrange(0, indices@.len() as int) == indices@);
    out
}


/// A longer prefix contains everything a shorter one does
proof fn lemma_prefix_monotone(sets: Seq<SystemSet>, q1: int, q2: int, d: SystemId)
    requires
        q1 <= q2,
        id_in_prefix(sets, q1, d),
    ensures
        id_in_prefix(sets, q2, d),
{
    let i = choose|i: int| 0 <= i < q1 && i < sets.len() && (#[trigger] sets[i]).system_ids@.contains(d);
    assert(sets[i].system_ids@.contains(d));
}

/// Every member of every stage is the profile of one of the given systems of the phase
pub open spec fn members_from(systems: Seq<PendingSystem>, phase: Phase, sets: Seq<SystemSet>) -> bool {
    forall|k: int, i: int|
        0 <= k < sets.len() && 0 <= i < sets[k].members@.len() ==> exists|j: int|
            0 <= j < systems.len() && systems[j].phase == phase && (#[trigger] systems[j]).profile()
                == #[trigger] sets[k].members@[i]
}

/// The stages built for one phase: well formed, holding only systems of that phase,
/// holding every system of that phase, and exactly the stages of [phase_stages]
#[verifier::opaque]
pub open spec fn phase_schedule_ok(systems: Seq<PendingSystem>, phase: Phase, sets: Seq<SystemSet>) -> bool {
    &&& stage_members(sets) == phase_stages(systems, phase)
    &&& schedule_wf(sets)
    &&& members_from(systems, phase, sets)
    &&& forall|j: int|
        0 <= j < systems.len() && (#[trigger] systems[j]).phase == phase ==> id_in_prefix(
            sets,
            sets.len() as int,
            systems[j].system_id,
        )
}

/// Builds the stages for all systems of the given phase. Systems are inserted from low to
/// high raw ID, so the dependencies of a system have always been placed before it
pub fn build_schedule_for_phase(systems: &Vec<PendingSystem>, phase: Phase) -> (sets: Vec<SystemSet>)
    requires
        dependencies_in_order(systems@),
    ensures
        phase_schedule_ok(systems@, phase, sets@),
        stage_members(sets@) == phase_stages(systems@, phase),
{
    let n = systems.len();
    let mut group: Vec<usize> = Vec::new();
    let mut j: usize = 0;
    while j < n
        invariant
            0 <= j <= n,
            n == systems@.len(),
            forall|a: int| 0 <= a < group@.len() ==> (#[trigger] group@[a]) < n,
            forall|x: usize| group@.contains(x) <==> (x < j && systems@[x as int].phase == phase),
            indexed_profiles(systems@, group@) == phase_profiles(systems@.subrange(0, j as int), phase),
        decreases n - j,
    {
        let ghost prev = group@;
        if systems[j].phase == phase {
            group.push(j);
        }
        proof {
            let sub = systems@.subrange(0, j + 1);
            assert(sub.drop_last() =~= systems@.subrange(0, j as int));
            assert(sub.last() == systems@[j as int]);
            assert(indexed_profiles(systems@, group@) =~= phase_profiles(sub, phase));
        }
        proof {
            assert forall|x: usize| group@.contains(x) <==> (x < j + 1 && systems@[x as int].phase == phase) by {
                if group@.contains(x) {
                    let a = choose|a: int| 0 <= a < group@.len() && group@[a] == x;
                    if a < prev.len() {
                        assert(prev[a] == x);
                        assert(prev.contains(x));
                    } else {
                        assert(x == j && systems@[j as int].phase == phase);
                    }
                }
                if x < j && systems@[x as int].phase == phase {
                    assert(prev.contains(x));
                    let a = choose|a: int| 0 <= a < prev.len() && prev[a] == x;
                    assert(group@[a] == x);
                }
                if x == j && systems@[x as int].phase == phase {
                    assert(group@[prev.len() as int] == x);
                }
            }
        }
        j += 1;
    }
    assert(systems@.subrange(0, n as int) =~= systems@);
    let order = sort_by_system_id(systems, &group);
    let ghost sorted = indexed_profiles(systems@, order@);
    assert(sorted == sorted_by_raw_id(phase_profiles(systems@, phase)));
    let mut sets: Vec<SystemSet> = Vec::new();
    let mut t: usize = 0;
    while t < order.len()
        invariant
            0 <= t <= order.len(),
            n == systems@.len(),
            dependencies_in_order(systems@),
            sorted_by_id(systems@, order@),
            forall|x: usize| order@.contains(x) <==> (x < n && systems@[x as int].phase == phase),
            schedule_wf(sets@),
            sorted == indexed_profiles(systems@, order@),
            stage_members(sets@) == greedy_schedule(sorted.subrange(0, t as int)),
            members_from(systems@, phase, sets@),
            forall|u: int| 0 <= u < t ==> id_in_prefix(
                sets@,
                sets@.len() as int,
                systems@[#[trigger] order@[u] as int].system_id,
            ),
        decreases order.len() - t,
    {
        let idx = order[t];
        assert(order@.contains(idx));
        let sys = &systems[idx];
        proof {
            assert forall|d: SystemId| #[trigger] sys.dependencies@.contains(d) implies id_in_prefix(
                sets@,
                sets@.len() as int,
                d,
            ) by {
                assert(has_earlier_provider(systems@, idx as int, d));
                let jj = choose|jj: int|
                    0 <= jj < systems@.len() && (#[trigger] systems@[jj]).system_id == d
                        && systems@[jj].phase == systems@[idx as int].phase && d.0
                        < systems@[idx as int].system_id.0;
                assert(order@.contains(jj as usize));
                let u = choose|u: int| 0 <= u < order@.len() && order@[u] == jj as usize;
                if u >= t {
                    if u == t {
                        assert(false);
                    } else {
                        assert(systems@[order@[t as int] as int].system_id.0 <= systems@[order@[u] as int].system_id.0);
                    }
                }
                assert(id_in_prefix(sets@, sets@.len() as int, systems@[order@[u] as int].system_id));
            }
        }
        let ghost old_sets = sets@;
        insert_system(&mut sets, sys);
        proof {
            let new_sets = sets@;
            let (o, k) = choose|o: int, k: int|
                is_dependency_offset(old_sets, sys.dependencies@, o) && is_first_free_stage(
                    old_sets,
                    sys.profile(),
                    o,
                    k,
                ) && inserted_at(old_sets, new_sets, sys, k);
            lemma_inserted_greedily(old_sets, new_sets, sys, o, k);
            let pre = sorted.subrange(0, t + 1);
            assert(pre.drop_last() =~= sorted.subrange(0, t as int));
            assert(pre.last() == sys.profile());
            assert forall|kk: int, i: int|
                0 <= kk < new_sets.len() && 0 <= i < new_sets[kk].members@.len() implies exists|jj: int|
                    0 <= jj < systems@.len() && systems@[jj].phase == phase && (#[trigger] systems@[jj]).profile()
                        == #[trigger] new_sets[kk].members@[i] by {
                if kk != k {
                    assert(new_sets[kk] == old_sets[kk]);
                    assert(old_sets[kk].members@[i] == new_sets[kk].members@[i]);
                } else if k < old_sets.len() && i < old_sets[k].members@.len() {
                    assert(old_sets[kk].members@[i] == new_sets[kk].members@[i]);
                } else {
                    assert(new_sets[kk].members@[i] == systems@[idx as int].profile());
                }
            }
            assert forall|u: int| 0 <= u < t + 1 implies id_in_prefix(
                new_sets,
                new_sets.len() as int,
                systems@[#[trigger] order@[u] as int].system_id,
            ) by {
                if u < t {
                    let d = systems@[order@[u] as int].system_id;
                    assert(id_in_prefix(old_sets, old_sets.len() as int, d));
                    assert(id_in_prefix(new_sets, old_sets.len() as int, d));
                    lemma_prefix_monotone(new_sets, old_sets.len() as int, new_sets.len() as int, d);
                }
            }
        }
        t += 1;
    }
    proof {
        reveal(phase_schedule_ok);
        assert(sorted.subrange(0, order@.len() as int) =~= sorted);
        assert(stage_members(sets@) == phase_stages(systems@, phase));
        assert forall|jj: int|
            0 <= jj < systems@.len() && (#[trigger] systems@[jj]).phase == phase implies id_in_prefix(
            sets@,
            sets@.len() as int,
            systems@[jj].system_id,
        ) by {
            assert(order@.contains(jj as usize));
            let u = choose|u: int| 0 <= u < order@.len() && order@[u] == jj as usize;
            assert(id_in_prefix(sets@, sets@.len() as int, systems@[order@[u] as int].system_id));
        }
    }
    sets
}

/// The schedule per phase matches the systems: phases are distinct, each phase entry
/// is a correct schedule of that phase's systems, and each system's phase has an entry
pub open spec fn schedule_matches(systems: Seq<PendingSystem>, by_phase: Seq<(Phase, Vec<SystemSet>)>) -> bool {
    &&& forall|a: int, b: int| 0 <= a < b < by_phase.len() ==> (#[trigger] by_phase[a]).0 != (#[trigger] by_phase[b]).0
    &&& forall|a: int| 0 <= a < by_phase.len() ==> phase_schedule_ok(systems, (#[trigger] by_phase[a]).0, by_phase[a].1@)
    &&& forall|a: int| 0 <= a < by_phase.len() ==> exists|j: int| 0 <= j < systems.len() && (#[trigger] systems[j]).phase == (#[trigger] by_phase[a]).0
    &&& forall|j: int| 0 <= j < systems.len() ==> exists|a: int| 0 <= a < by_phase.len() && (#[trigger] by_phase[a]).0 == (#[trigger] systems[j]).phase
}

/// Returns whether the phase has an entry in the list
fn phase_present(by_phase: &Vec<(Phase, Vec<SystemSet>)>, phase: Phase) -> (r: bool)
    ensures
        r == exists|a: int| 0 <= a < by_phase@.len() && (#[trigger] by_phase@[a]).0 == phase,
{
    let mut a: usize = 0;
    while a < by_phase.len()
        invariant
            0 <= a <= by_phase.len(),
            forall|b: int| 0 <= b < a ==> (#[trigger] by_phase@[b]).0 != phase,
        decreases by_phase.len() - a,
    {
        if by_phase[a].0 == phase {
            return true;
        }
        a += 1;
    }
    false
}

/// The system manager. Holds the full schedule of all systems, ordered by phase
pub struct SystemManager {
    /// Systems queued for insertion into the schedule
    pub pending_systems: Option<SystemManifest>,
    /// All systems currently in the schedule
    pub current_manifest: SystemManifest,
    /// The stages of each phase, in order of first appearance of the phase
    pub by_phase: Vec<(Phase, Vec<SystemSet>)>,
}

impl SystemManager {
    /// Creates a new [SystemManager] without any systems
    pub fn new() -> (r: Self)
        ensures
            r.pending_systems is None,
            r.current_manifest.systems@.len() == 0,
            r.by_phase@.len() == 0,
            r.wf(),
    {
        SystemManager {
            pending_systems: None,
            current_manifest: SystemManifest::empty(),
            by_phase: Vec::new(),
        }
    }

    /// The schedule is a correct schedule of the current manifest
    pub open spec fn wf(&self) -> bool {
        schedule_matches(self.current_manifest.systems@, self.by_phase@)
    }

    /// Rebuilds the whole schedule from the given manifest, which becomes the current one
    pub fn build_schedule(&mut self, manifest: SystemManifest)
        requires
            dependencies_in_order(manifest.systems@),
        ensures
            final(self).current_manifest.systems@ == manifest.systems@,
            final(self).pending_systems == old(self).pending_systems,
            final(self).wf(),
            forall|a: int| 0 <= a < final(self).by_phase@.len() ==> stage_members(
                (#[trigger] final(self).by_phase@[a]).1@,
            ) == phase_stages(manifest.systems@, final(self).by_phase@[a].0),
    {
        let mut by_phase: Vec<(Phase, Vec<SystemSet>)> = Vec::new();
        let n = manifest.systems.len();
        let mut i: usize = 0;
        proof {
            reveal(entries_ok);
            reveal(phases_covered);
        }
        while i < n
            invariant
                0 <= i <= n,
                n == manifest.systems@.len(),
                dependencies_in_order(manifest.systems@),
                entries_ok(manifest.systems@, by_phase@),
                phases_covered(manifest.systems@, by_phase@, i as int),
            decreases n - i,
        {
            let phase = manifest.systems[i].phase;
            let ghost prev = by_phase@;
            if !phase_present(&by_phase, phase) {
                assert(!has_entry(prev, phase));
                let sets = build_schedule_for_phase(&manifest.systems, phase);
                by_phase.push((phase, sets));
                proof {
                    lemma_push_entry(manifest.systems@, prev, (phase, sets), i as int);
                }
            } else {
                assert(has_entry(prev, phase));
                proof {
                    lemma_phase_already_present(manifest.systems@, prev, i as int);
                }
            }
            i += 1;
        }
        proof {
            lemma_entries_match(manifest.systems@, by_phase@);
            lemma_entries_exact(manifest.systems@, by_phase@);
        }
        self.by_phase = by_phase;
        self.current_manifest = manifest;
    }

    /// Returns the stages of the given phase, if that phase has any systems
    pub fn find_sets_for_phase(&self, phase: Phase) -> (r: Option<&Vec<SystemSet>>)
        ensures
            r matches Some(sets) ==> exists|a: int|
                0 <= a < self.by_phase@.len() && (#[trigger] self.by_phase@[a]).0 == phase
                    && self.by_phase@[a].1 == *sets,
            r is None ==> forall|a: int| 0 <= a < self.by_phase@.len() ==> (#[trigger] self.by_phase@[a]).0 != phase,
    {
        let mut a: usize = 0;
        while a < self.by_phase.len()
            invariant
                0 <= a <= self.by_phase.len(),
                forall|b: int| 0 <= b < a ==> (#[trigger] self.by_phase@[b]).0 != phase,
            decreases self.by_phase.len() - a,
        {
            if self.by_phase[a].0 == phase {
                return Some(&self.by_phase[a].1);
            }
            a += 1;
        }
        None
    }

    /// Queues the systems of `manifest` for insertion into the schedule
    pub fn queue_system(&mut self, manifest: SystemManifest)
        ensures
            final(self).current_manifest == old(self).current_manifest,
            final(self).by_phase == old(self).by_phase,
            final(self).pending_systems matches Some(p) && p.systems@ == match old(self).pending_systems {
                Some(q) => q.systems@ + manifest.systems@,
                None => manifest.systems@,
            },
    {
        let pending = self.pending_systems.take();
        match pending {
            Some(mut p) => {
                p.merge(manifest);
                self.pending_systems = Some(p);
            },
            None => {
                self.pending_systems = Some(manifest);
            },
        }
    }

    /// The queued systems can be merged into the schedule
    pub open spec fn schedulable(&self) -> bool {
        match self.pending_systems {
            Some(p) => p.systems@.len() == 0 || dependencies_in_order(
                self.current_manifest.systems@ + p.systems@,
            ),
            None => true,
        }
    }

    /// Checks [Self::schedulable]
    pub fn is_schedulable(&self) -> (r: bool)
        ensures
            r == self.schedulable(),
    {
        match &self.pending_systems {
            Some(p) => {
                if p.systems.len() == 0 {
                    return true;
                }
                let mut all = SystemManifest { systems: Vec::new() };
                let mut i: usize = 0;
                while i < self.current_manifest.systems.len()
                    invariant
                        0 <= i <= self.current_manifest.systems@.len(),
                        all.systems@.len() == i,
                        forall|j: int| 0 <= j < i ==> (#[trigger] all.systems@[j]).profile()
                            == self.current_manifest.systems@[j].profile() && all.systems@[j].phase
                            == self.current_manifest.systems@[j].phase,
                    decreases self.current_manifest.systems.len() - i,
                {
                    all.systems.push(profile_copy(&self.current_manifest.systems[i]));
                    i += 1;
                }
                let mut i: usize = 0;
                while i < p.systems.len()
                    invariant
                        0 <= i <= p.systems@.len(),
                        all.systems@.len() == self.current_manifest.systems@.len() + i,
                        forall|j: int| 0 <= j < self.current_manifest.systems@.len() ==> (#[trigger] all.systems@[j]).profile()
                            == self.current_manifest.systems@[j].profile() && all.systems@[j].phase
                            == self.current_manifest.systems@[j].phase,
                        forall|j: int| 0 <= j < i ==> (#[trigger] all.systems@[self.current_manifest.systems@.len() + j]).profile()
                            == p.systems@[j].profile() && all.systems@[self.current_manifest.systems@.len() + j].phase
                            == p.systems@[j].phase,
                    decreases p.systems.len() - i,
                {
                    all.systems.push(profile_copy(&p.systems[i]));
                    i += 1;
                }
                let r = dependencies_satisfiable(&all);
                proof {
                    let merged = self.current_manifest.systems@ + p.systems@;
                    assert forall|j: int| 0 <= j < merged.len() implies (#[trigger] all.systems@[j]).profile() == merged[j].profile()
                        && all.systems@[j].phase == merged[j].phase by {
                        if j >= self.current_manifest.systems@.len() {
                            let jj = j - self.current_manifest.systems@.len();
                            assert(all.systems@[self.current_manifest.systems@.len() + jj].profile() == p.systems@[jj].profile());
                        }
                    }
                    lemma_order_depends_on_profiles(all.systems@, merged);
                }
                r
            },
            None => true,
        }
    }

    /// Merges the queued systems (if any) into the current manifest and rebuilds the schedule
    pub fn update_schedule(&mut self)
        requires
            old(self).schedulable(),
        ensures
            final(self).pending_systems is None,
            match old(self).pending_systems {
                Some(p) => if p.systems@.len() == 0 {
                    final(self).current_manifest == old(self).current_manifest
                        && final(self).by_phase == old(self).by_phase
                } else {
                    &&& final(self).current_manifest.systems@ == old(self).current_manifest.systems@ + p.systems@
                    &&& final(self).wf()
                    &&& forall|a: int| 0 <= a < final(self).by_phase@.len() ==> stage_members(
                        (#[trigger] final(self).by_phase@[a]).1@,
                    ) == phase_stages(final(self).current_manifest.systems@, final(self).by_phase@[a].0)
                },
                None => final(self).current_manifest == old(self).current_manifest
                    && final(self).by_phase == old(self).by_phase,
            },
    {
        let pending = self.pending_systems.take();
        let pending = match pending {
            Some(p) => p,
            None => return,
        };
        if pending.systems.len() == 0 {
            return;
        }
        let mut new_manifest = SystemManifest::empty();
        core::mem::swap(&mut new_manifest, &mut self.current_manifest);
        new_manifest.merge(pending);
        self.build_schedule(new_manifest);
    }
}

/// A copy of the scheduling data of a system (name left empty)
fn profile_copy(sys: &PendingSystem) -> (r: PendingSystem)
    ensures
        r.profile() == sys.profile(),
        r.phase == sys.phase,
{
    PendingSystem {
        system_id: sys.system_id,
        phase: sys.phase,
        name: String::new(),
        dependencies: copy_ids(&sys.dependencies),
        shared_borrows: copy_u64s(&sys.shared_borrows),
        exclusive_borrows: copy_u64s(&sys.exclusive_borrows),
    }
}

fn copy_ids(v: &Vec<SystemId>) -> (r: Vec<SystemId>)
    ensures
        r@ == v@,
{
    let mut r: Vec<SystemId> = Vec::new();
    let mut i: usize = 0;
    while i < v.len()
        invariant
            0 <= i <= v.len(),
            r@ == v@.subrange(0, i as int),
        decreases v.len() - i,
    {
        r.push(v[i]);
        i += 1;
        assert(v@.subrange(0, i as int) == v@.subrange(0, i - 1).push(v@[i - 1]));
    }
    assert(v@.subrange(0, v@.len() as int) == v@);
    r
}

fn copy_u64s(v: &Vec<u64>) -> (r: Vec<u64>)
    ensures
        r@ == v@,
{
    let mut r: Vec<u64> = Vec::new();
    extend_u64(&mut r, v);
    assert(r@ == Seq::<u64>::empty() + v@);
    assert(Seq::<u64>::empty() + v@ == v@);
    r
}

/// Whether the dependencies are in order only depends on the systems' profiles and phases
proof fn lemma_order_depends_on_profiles(a: Seq<PendingSystem>, b: Seq<PendingSystem>)
    requires
        a.len() == b.len(),
        forall|j: int| 0 <= j < b.len() ==> (#[trigger] a[j]).profile() == b[j].profile() && a[j].phase == b[j].phase,
    ensures
        dependencies_in_order(a) == dependencies_in_order(b),
{
    assert forall|i: int, d: SystemId| 0 <= i < a.len() implies has_earlier_provider(a, i, d) == has_earlier_provider(b, i, d) by {
        assert(a[i].profile() == b[i].profile());
        if has_earlier_provider(a, i, d) {
            let j = choose|j: int| 0 <= j < a.len() && (#[trigger] a[j]).system_id == d && a[j].phase == a[i].phase && d.0 < a[i].system_id.0;
            assert(a[j].profile() == b[j].profile());
        }
        if has_earlier_provider(b, i, d) {
            let j = choose|j: int| 0 <= j < b.len() && (#[trigger] b[j]).system_id == d && b[j].phase == b[i].phase && d.0 < b[i].system_id.0;
            assert(a[j].profile() == b[j].profile());
        }
    }
    assert forall|i: int| 0 <= i < a.len() implies a[i].dependencies@ == b[i].dependencies@ by {
        assert(a[i].profile() == b[i].profile());
    }
}


/// A phase entry is a correct schedule of the systems of a phase that some system has
pub open spec fn entry_ok(systems: Seq<PendingSystem>, e: (Phase, Vec<SystemSet>)) -> bool {
    &&& phase_schedule_ok(systems, e.0, e.1@)
    &&& exists|j: int| 0 <= j < systems.len() && (#[trigger] systems[j]).phase == e.0
}

/// Phase entries are distinct and correct
#[verifier::opaque]
pub open spec fn entries_ok(systems: Seq<PendingSystem>, by_phase: Seq<(Phase, Vec<SystemSet>)>) -> bool {
    &&& forall|a: int, b: int| 0 <= a < b < by_phase.len() ==> (#[trigger] by_phase[a]).0 != (#[trigger] by_phase[b]).0
    &&& forall|a: int| 0 <= a < by_phase.len() ==> entry_ok(systems, #[trigger] by_phase[a])
}

/// The phases of the first `i` systems all have an entry
#[verifier::opaque]
pub open spec fn phases_covered(systems: Seq<PendingSystem>, by_phase: Seq<(Phase, Vec<SystemSet>)>, i: int) -> bool {
    forall|j: int| 0 <= j < i ==> has_entry(by_phase, #[trigger] systems[j].phase)
}

/// Some entry is for the phase
pub open spec fn has_entry(by_phase: Seq<(Phase, Vec<SystemSet>)>, phase: Phase) -> bool {
    exists|a: int| 0 <= a < by_phase.len() && (#[trigger] by_phase[a]).0 == phase
}

proof fn lemma_push_entry(
    systems: Seq<PendingSystem>,
    prev: Seq<(Phase, Vec<SystemSet>)>,
    entry: (Phase, Vec<SystemSet>),
    i: int,
)
    requires
        0 <= i < systems.len(),
        entries_ok(systems, prev),
        phases_covered(systems, prev, i),
        !has_entry(prev, entry.0),
        phase_schedule_ok(systems, entry.0, entry.1@),
        entry.0 == systems[i].phase,
    ensures
        entries_ok(systems, prev.push(entry)),
        phases_covered(systems, prev.push(entry), i + 1),
{
    reveal(entries_ok);
    reveal(phases_covered);
    let bp = prev.push(entry);
    assert(entry_ok(systems, entry));
    assert forall|a: int, b: int| 0 <= a < b < bp.len() implies (#[trigger] bp[a]).0 != (#[trigger] bp[b]).0 by {
        assert(bp[a] == prev[a]);
        if b < prev.len() {
            assert(bp[b] == prev[b]);
        }
    }
    assert forall|a: int| 0 <= a < bp.len() implies entry_ok(systems, #[trigger] bp[a]) by {
        if a < prev.len() {
            assert(bp[a] == prev[a]);
        }
    }
    assert forall|j: int| 0 <= j < i + 1 implies has_entry(bp, #[trigger] systems[j].phase) by {
        if j < i {
            assert(has_entry(prev, systems[j].phase));
            let a = choose|a: int| 0 <= a < prev.len() && (#[trigger] prev[a]).0 == systems[j].phase;
            assert(bp[a] == prev[a]);
        } else {
            assert(bp[prev.len() as int] == entry);
        }
    }
}

proof fn lemma_phase_already_present(
    systems: Seq<PendingSystem>,
    bp: Seq<(Phase, Vec<SystemSet>)>,
    i: int,
)
    requires
        0 <= i < systems.len(),
        phases_covered(systems, bp, i),
        has_entry(bp, systems[i].phase),
    ensures
        phases_covered(systems, bp, i + 1),
{
    reveal(phases_covered);
}

proof fn lemma_entries_match(systems: Seq<PendingSystem>, bp: Seq<(Phase, Vec<SystemSet>)>)
    requires
        entries_ok(systems, bp),
        phases_covered(systems, bp, systems.len() as int),
    ensures
        schedule_matches(systems, bp),
{
    reveal(entries_ok);
    reveal(phases_covered);
    assert forall|j: int| 0 <= j < systems.len() implies exists|a: int| 0 <= a < bp.len() && (#[trigger] bp[a]).0 == (#[trigger] systems[j]).phase by {
        assert(has_entry(bp, systems[j].phase));
    }
    assert forall|a: int| 0 <= a < bp.len() implies exists|j: int| 0 <= j < systems.len() && (#[trigger] systems[j]).phase == (#[trigger] bp[a]).0 by {
        assert(entry_ok(systems, bp[a]));
    }
    assert forall|a: int| 0 <= a < bp.len() implies phase_schedule_ok(systems, (#[trigger] bp[a]).0, bp[a].1@) by {
        assert(entry_ok(systems, bp[a]));
    }
}

proof fn lemma_entries_exact(systems: Seq<PendingSystem>, bp: Seq<(Phase, Vec<SystemSet>)>)
    requires
        schedule_matches(systems, bp),
    ensures
        forall|a: int| 0 <= a < bp.len() ==> stage_members((#[trigger] bp[a]).1@) == phase_stages(systems, bp[a].0),
{
    assert forall|a: int| 0 <= a < bp.len() implies stage_members((#[trigger] bp[a]).1@) == phase_stages(systems, bp[a].0) by {
        assert(phase_schedule_ok(systems, bp[a].0, bp[a].1@));
        reveal(phase_schedule_ok);
    }
}

/// Two systems placed in the same stage of a well-formed schedule never conflict: neither
/// borrows mutably a component that the other borrows at all
pub proof fn lemma_stage_members_never_conflict(m: &SystemManager, a: int, k: int, i: int, j: int)
    requires
        m.wf(),
        0 <= a < m.by_phase@.len(),
        0 <= k < m.by_phase@[a].1@.len(),
        0 <= i < m.by_phase@[a].1@[k].members@.len(),
        0 <= j < m.by_phase@[a].1@[k].members@.len(),
        i != j,
    ensures
        !conflict(m.by_phase@[a].1@[k].members@[i], m.by_phase@[a].1@[k].members@[j]),
{
    let sets = m.by_phase@[a].1@;
    assert(phase_schedule_ok(m.current_manifest.systems@, m.by_phase@[a].0, sets));
    reveal(phase_schedule_ok);
    assert(sets[k].wf());
}

/// In a well-formed schedule, every dependency of a scheduled system runs in a strictly
/// earlier stage of the same phase
pub proof fn lemma_dependencies_run_earlier(m: &SystemManager, a: int, k: int, i: int, d: SystemId)
    requires
        m.wf(),
        0 <= a < m.by_phase@.len(),
        0 <= k < m.by_phase@[a].1@.len(),
        0 <= i < m.by_phase@[a].1@[k].members@.len(),
        m.by_phase@[a].1@[k].members@[i].1.contains(d),
    ensures
        exists|e: int| 0 <= e < k && (#[trigger] m.by_phase@[a].1@[e]).system_ids@.contains(d),
{
    let sets = m.by_phase@[a].1@;
    assert(phase_schedule_ok(m.current_manifest.systems@, m.by_phase@[a].0, sets));
    reveal(phase_schedule_ok);
    assert(id_in_prefix(sets, k, d));
}

/// In a well-formed schedule, every system of the current manifest is placed in some stage
/// of the entry for its phase
pub proof fn lemma_every_system_scheduled(m: &SystemManager, j: int)
    requires
        m.wf(),
        0 <= j < m.current_manifest.systems@.len(),
    ensures
        exists|a: int, k: int|
            0 <= a < m.by_phase@.len() && 0 <= k < m.by_phase@[a].1@.len()
                && m.by_phase@[a].0 == m.current_manifest.systems@[j].phase
                && (#[trigger] m.by_phase@[a].1@[k]).system_ids@.contains(m.current_manifest.systems@[j].system_id),
{
    let systems = m.current_manifest.systems@;
    let a = choose|a: int| 0 <= a < m.by_phase@.len() && (#[trigger] m.by_phase@[a]).0 == (#[trigger] systems[j]).phase;
    let sets = m.by_phase@[a].1@;
    assert(phase_schedule_ok(systems, m.by_phase@[a].0, sets));
    lemma_phase_schedule_places(systems, m.by_phase@[a].0, sets, j);
    let k = choose|k: int| 0 <= k < sets.len() && (#[trigger] sets[k]).system_ids@.contains(systems[j].system_id);
    assert(m.by_phase@[a].1@[k].system_ids@.contains(systems[j].system_id));
}

proof fn lemma_phase_schedule_places(systems: Seq<PendingSystem>, phase: Phase, sets: Seq<SystemSet>, j: int)
    requires
        phase_schedule_ok(systems, phase, sets),
        0 <= j < systems.len(),
        systems[j].phase == phase,
    ensures
        exists|k: int| 0 <= k < sets.len() && (#[trigger] sets[k]).system_ids@.contains(systems[j].system_id),
{
    reveal(phase_schedule_ok);
    assert(id_in_prefix(sets, sets.len() as int, systems[j].system_id));
}

} // verus!
