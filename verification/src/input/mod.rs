//! Raw input state: keyboards and mice, each either identified by their native
//! device or merged into one unidentified device, and the queries on them

use vstd::prelude::*;
use vstd::string::StrSliceExecFns;

pub mod keyboard;
pub mod mouse;

use self::keyboard::{Keyboard, KeyboardEvent, KeyboardId, LogicalInput, logical_key::LogicalKey};
use self::mouse::{Mouse, MouseEvent, MouseId};

verus! {

/// Opaque identifier for a window that can receive input.
/// Users of the library should convert to-and-from this type
/// from their own actual window handles.
#[derive(Debug, Clone, Copy, PartialEq, Eq, Structural, Hash)]
pub struct WindowIdentifier(pub u64);

impl WindowIdentifier {
    /// Creates a new WindowIdentifier from a raw int
    pub fn new(val: u64) -> (r: Self)
        ensures
            r.0 == val,
    {
        WindowIdentifier(val)
    }

    /// Returns the raw integer for this identifier
    pub fn raw(self) -> (r: u64)
        ensures
            r == self.0,
    {
        self.0
    }
}

/// No element occurs twice
pub open spec fn no_duplicates<T>(s: Seq<T>) -> bool {
    forall|i: int, j: int| 0 <= i < j < s.len() ==> s[i] != s[j]
}

/// Returns whether `x` is in `v`
pub fn vec_contains_u32(v: &Vec<u32>, x: u32) -> (r: bool)
    ensures
        r == v@.contains(x),
{
    let mut i: usize = 0;
    while i < v.len()
        invariant
            0 <= i <= v.len(),
            forall|j: int| 0 <= j < i ==> v@[j] != x,
        decreases v.len() - i,
    {
        if v[i] == x {
            return true;
        }
        i += 1;
    }
    false
}

/// Adds `x` to the set `v`. Returns whether it was not yet present
pub fn vec_insert_u32(v: &mut Vec<u32>, x: u32) -> (inserted: bool)
    requires
        no_duplicates(old(v)@),
    ensures
        no_duplicates(final(v)@),
        inserted == !old(v)@.contains(x),
        forall|y: u32| final(v)@.contains(y) == (old(v)@.contains(y) || y == x),
{
    if vec_contains_u32(v, x) {
        false
    } else {
        let ghost prev = v@;
        v.push(x);
        proof {
            assert forall|i: int, j: int| 0 <= i < j < v@.len() implies v@[i] != v@[j] by {
                if j == prev.len() {
                    assert(v@[i] == prev[i]);
                }
            }
            assert forall|y: u32| v@.contains(y) == (prev.contains(y) || y == x) by {
                if v@.contains(y) && y != x {
                    let i = choose|i: int| 0 <= i < v@.len() && v@[i] == y;
                    assert(prev[i] == y);
                }
                if prev.contains(y) {
                    let i = choose|i: int| 0 <= i < prev.len() && prev[i] == y;
                    assert(v@[i] == y);
                }
                if y == x {
                    assert(v@[prev.len() as int] == y);
                }
            }
        }
        true
    }
}

/// Removes `x` from the set `v`. Returns whether it was present
pub fn vec_remove_u32(v: &mut Vec<u32>, x: u32) -> (removed: bool)
    requires
        no_duplicates(old(v)@),
    ensures
        no_duplicates(final(v)@),
        removed == old(v)@.contains(x),
        forall|y: u32| final(v)@.contains(y) == (old(v)@.contains(y) && y != x),
{
    let mut i: usize = 0;
    while i < v.len()
        invariant
            0 <= i <= v.len(),
            v@ == old(v)@,
            no_duplicates(old(v)@),
            forall|j: int| 0 <= j < i ==> v@[j] != x,
        decreases v.len() - i,
    {
        if v[i] == x {
            let ghost prev = v@;
            v.remove(i);
            proof {
                assert forall|a: int, b: int| 0 <= a < b < v@.len() implies v@[a] != v@[b] by {
                    let pa = if a < i { a } else { a + 1 };
                    let pb = if b < i { b } else { b + 1 };
                    assert(v@[a] == prev[pa]);
                    assert(v@[b] == prev[pb]);
                }
                assert forall|y: u32| v@.contains(y) == (prev.contains(y) && y != x) by {
                    if v@.contains(y) {
                        let a = choose|a: int| 0 <= a < v@.len() && v@[a] == y;
                        let pa = if a < i { a } else { a + 1 };
                        assert(prev[pa] == y);
                        if y == x {
                            assert(prev[i as int] == x);
                        }
                    }
                    if prev.contains(y) && y != x {
                        let a = choose|a: int| 0 <= a < prev.len() && prev[a] == y;
                        if a < i {
                            assert(v@[a] == y);
                        } else {
                            assert(a != i);
                            assert(v@[a - 1] == y);
                        }
                    }
                }
            }
            return true;
        }
        i += 1;
    }
    false
}

/// Returns whether `x` is in `v`
pub fn vec_contains_u64(v: &Vec<u64>, x: u64) -> (r: bool)
    ensures
        r == v@.contains(x),
{
    let mut i: usize = 0;
    while i < v.len()
        invariant
            0 <= i <= v.len(),
            forall|j: int| 0 <= j < i ==> v@[j] != x,
        decreases v.len() - i,
    {
        if v[i] == x {
            return true;
        }
        i += 1;
    }
    false
}

/// Adds `x` to the set `v`. Returns whether it was not yet present
pub fn vec_insert_u64(v: &mut Vec<u64>, x: u64) -> (inserted: bool)
    requires
        no_duplicates(old(v)@),
    ensures
        no_duplicates(final(v)@),
        inserted == !old(v)@.contains(x),
        forall|y: u64| final(v)@.contains(y) == (old(v)@.contains(y) || y == x),
{
    if vec_contains_u64(v, x) {
        false
    } else {
        let ghost prev = v@;
        v.push(x);
        proof {
            assert forall|i: int, j: int| 0 <= i < j < v@.len() implies v@[i] != v@[j] by {
                if j == prev.len() {
                    assert(v@[i] == prev[i]);
                }
            }
            assert forall|y: u64| v@.contains(y) == (prev.contains(y) || y == x) by {
                if v@.contains(y) && y != x {
                    let i = choose|i: int| 0 <= i < v@.len() && v@[i] == y;
                    assert(prev[i] == y);
                }
                if prev.contains(y) {
                    let i = choose|i: int| 0 <= i < prev.len() && prev[i] == y;
                    assert(v@[i] == y);
                }
                if y == x {
                    assert(v@[prev.len() as int] == y);
                }
            }
        }
        true
    }
}

/// Removes `x` from the set `v`. Returns whether it was present
pub fn vec_remove_u64(v: &mut Vec<u64>, x: u64) -> (removed: bool)
    requires
        no_duplicates(old(v)@),
    ensures
        no_duplicates(final(v)@),
        removed == old(v)@.contains(x),
        forall|y: u64| final(v)@.contains(y) == (old(v)@.contains(y) && y != x),
{
    let mut i: usize = 0;
    while i < v.len()
        invariant
            0 <= i <= v.len(),
            v@ == old(v)@,
            no_duplicates(old(v)@),
            forall|j: int| 0 <= j < i ==> v@[j] != x,
        decreases v.len() - i,
    {
        if v[i] == x {
            let ghost prev = v@;
            v.remove(i);
            proof {
                assert forall|a: int, b: int| 0 <= a < b < v@.len() implies v@[a] != v@[b] by {
                    let pa = if a < i { a } else { a + 1 };
                    let pb = if b < i { b } else { b + 1 };
                    assert(v@[a] == prev[pa]);
                    assert(v@[b] == prev[pb]);
                }
                assert forall|y: u64| v@.contains(y) == (prev.contains(y) && y != x) by {
                    if v@.contains(y) {
                        let a = choose|a: int| 0 <= a < v@.len() && v@[a] == y;
                        let pa = if a < i { a } else { a + 1 };
                        assert(prev[pa] == y);
                        if y == x {
                            assert(prev[i as int] == x);
                        }
                    }
                    if prev.contains(y) && y != x {
                        let a = choose|a: int| 0 <= a < prev.len() && prev[a] == y;
                        if a < i {
                            assert(v@[a] == y);
                        } else {
                            assert(a != i);
                            assert(v@[a - 1] == y);
                        }
                    }
                }
            }
            return true;
        }
        i += 1;
    }
    false
}

/// An input device whose state is changed by events and advanced per frame
pub trait InputDevice: Sized {
    /// The events that change the device state
    type Event;

    /// The state of the device is consistent
    spec fn device_wf(&self) -> bool;

    /// The device state of a device that has received no input
    spec fn is_fresh(&self) -> bool;

    /// This state is `before` advanced to the next frame
    spec fn frame_ended(&self, before: Self) -> bool;

    /// This state is `before` with `event` applied
    spec fn applied(&self, before: Self, event: Self::Event) -> bool;

    /// A device that has received no input
    fn fresh() -> (r: Self)
        ensures
            r.is_fresh(),
            r.device_wf(),
    ;

    /// Makes sure that all new input is registered to the next frame
    fn end_frame(&mut self)
        requires
            old(self).device_wf(),
        ensures
            final(self).device_wf(),
            final(self).frame_ended(*old(self)),
    ;

    /// Applies an input event to the device
    fn apply(&mut self, event: &Self::Event)
        requires
            old(self).device_wf(),
        ensures
            final(self).device_wf(),
            final(self).applied(*old(self), *event),
    ;
}

/// A set of input devices of one kind. As long as no device has been identified,
/// all input goes to one unidentified device; once a device is identified, each
/// device is tracked on its own.
pub struct DeviceSet<V> {
    /// The single unidentified device, if no device has been identified
    pub unidentified: Option<V>,
    /// The identified devices, each with the raw ID of its native device
    pub devices: Vec<(u64, V)>,
}

impl<V: InputDevice> DeviceSet<V> {
    /// Either one unidentified device, or at least one identified device with distinct IDs
    pub open spec fn wf(&self) -> bool {
        &&& match self.unidentified {
            Some(v) => self.devices@.len() == 0 && v.device_wf(),
            None => self.devices@.len() > 0,
        }
        &&& forall|i: int, j: int| 0 <= i < j < self.devices@.len() ==> (#[trigger] self.devices@[i]).0 != (#[trigger] self.devices@[j]).0
        &&& forall|i: int| 0 <= i < self.devices@.len() ==> (#[trigger] self.devices@[i]).1.device_wf()
    }

    /// A set with a single fresh unidentified device
    pub fn new() -> (r: Self)
        ensures
            r.wf(),
            r.unidentified matches Some(v) && v.is_fresh(),
    {
        DeviceSet { unidentified: Some(V::fresh()), devices: Vec::new() }
    }

    /// The identified device with the given ID, if any
    pub open spec fn identified(&self, id: u64) -> Option<V> {
        if exists|i: int| 0 <= i < self.devices@.len() && (#[trigger] self.devices@[i]).0 == id {
            let i = choose|i: int| 0 <= i < self.devices@.len() && (#[trigger] self.devices@[i]).0 == id;
            Some(self.devices@[i].1)
        } else {
            None
        }
    }

    /// The device that is returned when any device will do
    pub open spec fn any_device(&self) -> V {
        match self.unidentified {
            Some(v) => v,
            None => self.devices@[0].1,
        }
    }

    /// The position of the identified device with the given ID
    fn find(&self, id: u64) -> (r: Option<usize>)
        requires
            self.wf(),
        ensures
            r matches Some(i) ==> i < self.devices@.len() && self.devices@[i as int].0 == id,
            r is None ==> forall|i: int| 0 <= i < self.devices@.len() ==> (#[trigger] self.devices@[i]).0 != id,
    {
        let mut i: usize = 0;
        while i < self.devices.len()
            invariant
                0 <= i <= self.devices@.len(),
                forall|j: int| 0 <= j < i ==> (#[trigger] self.devices@[j]).0 != id,
            decreases self.devices.len() - i,
        {
            if self.devices[i].0 == id {
                return Some(i);
            }
            i += 1;
        }
        None
    }

    /// Returns an identified device, if it exists
    pub fn get_identified_device(&self, id: u64) -> (r: Option<&V>)
        requires
            self.wf(),
        ensures
            r matches Some(v) ==> self.identified(id) == Some(*v),
            r is None ==> self.identified(id) is None,
    {
        match self.find(id) {
            Some(i) => {
                assert(self.identified(id) == Some(self.devices@[i as int].1)) by {
                    let j = choose|j: int| 0 <= j < self.devices@.len() && (#[trigger] self.devices@[j]).0 == id;
                    assert(j == i as int);
                }
                Some(&self.devices[i].1)
            },
            None => None,
        }
    }

    /// Returns any device in the set
    pub fn get_any_device(&self) -> (r: &V)
        requires
            self.wf(),
        ensures
            *r == self.any_device(),
    {
        match &self.unidentified {
            Some(v) => v,
            None => &self.devices[0].1,
        }
    }

    /// This set is `before` without the identified device `id`: unchanged when there is no
    /// such device, and a single fresh unidentified device when it was the last one
    pub open spec fn removed_from(&self, before: Self, id: u64) -> bool {
        match before.identified(id) {
            None => *self == before,
            Some(_) => if before.devices@.len() == 1 {
                self.unidentified matches Some(v) && v.is_fresh() && self.devices@.len() == 0
            } else {
                self.unidentified is None && exists|i: int|
                    0 <= i < before.devices@.len() && before.devices@[i].0 == id
                        && self.devices@ == before.devices@.remove(i)
            },
        }
    }

    /// Removes an identified device from the set. When the last identified device is
    /// removed, the set goes back to a single fresh unidentified device
    pub fn remove_device(&mut self, id: u64)
        requires
            old(self).wf(),
        ensures
            final(self).wf(),
            final(self).removed_from(*old(self), id),
    {
        match self.find(id) {
            Some(i) => {
                let ghost prev = self.devices@;
                self.devices.remove(i);
                if self.devices.len() == 0 {
                    self.unidentified = Some(V::fresh());
                } else {
                    proof {
                        assert forall|a: int, b: int| 0 <= a < b < self.devices@.len() implies (#[trigger] self.devices@[a]).0 != (#[trigger] self.devices@[b]).0 by {
                            let pa = if a < i { a } else { a + 1 };
                            let pb = if b < i { b } else { b + 1 };
                            assert(self.devices@[a] == prev[pa]);
                            assert(self.devices@[b] == prev[pb]);
                        }
                        assert forall|a: int| 0 <= a < self.devices@.len() implies (#[trigger] self.devices@[a]).1.device_wf() by {
                            let pa = if a < i { a } else { a + 1 };
                            assert(self.devices@[a] == prev[pa]);
                        }
                    }
                }
                proof {
                    assert(old(self).identified(id) is Some) by {
                        assert(prev[i as int].0 == id);
                    }
                }
            },
            None => {
                assert(old(self).identified(id) is None);
            },
        }
    }

    /// Advances every device to the next frame
    pub fn end_frame_all(&mut self)
        requires
            old(self).wf(),
        ensures
            final(self).wf(),
            match old(self).unidentified {
                Some(v) => final(self).unidentified matches Some(w) && w.frame_ended(v) && final(self).devices@.len() == 0,
                None => final(self).unidentified is None,
            },
            final(self).devices@.len() == old(self).devices@.len(),
            forall|i: int| 0 <= i < old(self).devices@.len() ==> (#[trigger] final(self).devices@[i]).0 == old(self).devices@[i].0
                && final(self).devices@[i].1.frame_ended(old(self).devices@[i].1),
    {
        let ghost orig = self.devices@;
        match self.unidentified.take() {
            Some(mut v) => {
                v.end_frame();
                self.unidentified = Some(v);
            },
            None => {},
        }
        let ghost un = self.unidentified;
        let mut i: usize = 0;
        while i < self.devices.len()
            invariant
                0 <= i <= self.devices@.len(),
                self.unidentified == un,
                self.devices@.len() == orig.len(),
                forall|j: int| i <= j < orig.len() ==> self.devices@[j] == orig[j],
                forall|j: int| 0 <= j < i ==> (#[trigger] self.devices@[j]).0 == orig[j].0
                    && self.devices@[j].1.frame_ended(orig[j].1) && self.devices@[j].1.device_wf(),
                forall|j: int| 0 <= j < orig.len() ==> (#[trigger] orig[j]).1.device_wf(),
            decreases self.devices.len() - i,
        {
            assert(self.devices@[i as int] == orig[i as int]);
            assert(orig[i as int].1.device_wf());
            let (id, mut dev) = self.devices.remove(i);
            dev.end_frame();
            self.devices.insert(i, (id, dev));
            i += 1;
        }
        proof {
            assert forall|a: int, b: int| 0 <= a < b < self.devices@.len() implies (#[trigger] self.devices@[a]).0 != (#[trigger] self.devices@[b]).0 by {
                assert(self.devices@[a].0 == orig[a].0);
                assert(self.devices@[b].0 == orig[b].0);
            }
        }
    }

    /// This set is `before` with `event` applied to `device`: to the identified device of
    /// that ID (added fresh if new), or with no device given, to every device; the first
    /// identified device replaces the unidentified one
    pub open spec fn updated_from(&self, before: Self, device: Option<u64>, event: V::Event) -> bool {
        match (before.unidentified, device) {
            (Some(v), None) => self.unidentified matches Some(w) && w.applied(v, event)
                && self.devices@.len() == 0,
            (Some(v), Some(id)) => self.unidentified is None && self.devices@.len() == 1
                && self.devices@[0].0 == id && self.devices@[0].1.applied(v, event),
            (None, Some(id)) => self.unidentified is None && if before.identified(id) is Some {
                self.devices@.len() == before.devices@.len()
                    && forall|j: int| 0 <= j < before.devices@.len() ==> (#[trigger] self.devices@[j]).0 == before.devices@[j].0
                        && if before.devices@[j].0 == id {
                            self.devices@[j].1.applied(before.devices@[j].1, event)
                        } else {
                            self.devices@[j] == before.devices@[j]
                        }
            } else {
                self.devices@.len() == before.devices@.len() + 1
                    && self.devices@.subrange(0, before.devices@.len() as int) == before.devices@
                    && self.devices@.last().0 == id
                    && exists|f: V| f.is_fresh() && (#[trigger] self.devices@.last().1.applied(f, event))
            },
            (None, None) => self.unidentified is None
                && self.devices@.len() == before.devices@.len()
                && forall|j: int| 0 <= j < before.devices@.len() ==> (#[trigger] self.devices@[j]).0 == before.devices@[j].0
                    && self.devices@[j].1.applied(before.devices@[j].1, event),
        }
    }

    /// Updates a device (identified or not) in the set with the event.
    /// If an identified device is updated but does not yet exist, the device is added
    /// to the set. An event for no specific device goes to every device
    pub fn update_device(&mut self, device: Option<u64>, event: &V::Event)
        requires
            old(self).wf(),
        ensures
            final(self).wf(),
            final(self).updated_from(*old(self), device, *event),
    {
        let un = self.unidentified.take();
        match un {
            Some(mut v) => {
                match device {
                    None => {
                        v.apply(event);
                        self.unidentified = Some(v);
                    },
                    Some(id) => {
                        v.apply(event);
                        self.devices.push((id, v));
                        assert(self.devices@.len() == 1);
                        assert(self.wf());
                    },
                }
                return;
            },
            None => {},
        }
        let ghost orig = self.devices@;
        match device {
            Some(id) => {
                match self.find(id) {
                    Some(i) => {
                        assert(orig[i as int].1.device_wf());
                        let (did, mut dev) = self.devices.remove(i);
                        dev.apply(event);
                        self.devices.insert(i, (did, dev));
                        proof {
                            assert(old(self).identified(id) is Some) by {
                                assert(orig[i as int].0 == id);
                            }
                            assert forall|j: int| 0 <= j < orig.len() implies (#[trigger] self.devices@[j]).0 == orig[j].0
                                && if orig[j].0 == id {
                                    self.devices@[j].1.applied(orig[j].1, *event)
                                } else {
                                    self.devices@[j] == orig[j]
                                } by {
                                if j != i {
                                    assert(self.devices@[j] == orig[j]);
                                    if j < i {
                                        assert(orig[j].0 != orig[i as int].0);
                                    } else {
                                        assert(orig[i as int].0 != orig[j].0);
                                    }
                                }
                            }
                            assert forall|a: int, b: int| 0 <= a < b < self.devices@.len() implies (#[trigger] self.devices@[a]).0 != (#[trigger] self.devices@[b]).0 by {
                                assert(self.devices@[a].0 == orig[a].0);
                                assert(self.devices@[b].0 == orig[b].0);
                            }
                            assert forall|a: int| 0 <= a < self.devices@.len() implies (#[trigger] self.devices@[a]).1.device_wf() by {
                                if a != i {
                                    assert(self.devices@[a] == orig[a]);
                                }
                            }
                            assert(self.wf());
                        }
                    },
                    None => {
                        let mut dev = V::fresh();
                        let ghost f = dev;
                        dev.apply(event);
                        self.devices.push((id, dev));
                        proof {
                            assert(self.devices@.subrange(0, orig.len() as int) =~= orig);
                            assert(self.devices@.last().1.applied(f, *event));
                            assert forall|a: int, b: int| 0 <= a < b < self.devices@.len() implies (#[trigger] self.devices@[a]).0 != (#[trigger] self.devices@[b]).0 by {
                                assert(self.devices@[a] == orig[a]);
                                if b < orig.len() {
                                    assert(self.devices@[b] == orig[b]);
                                }
                            }
                            assert forall|a: int| 0 <= a < self.devices@.len() implies (#[trigger] self.devices@[a]).1.device_wf() by {
                                if a < orig.len() {
                                    assert(self.devices@[a] == orig[a]);
                                }
                            }
                            assert(old(self).identified(id) is None);
                            assert(self.wf());
                            assert(exists|f: V| f.is_fresh() && (#[trigger] self.devices@.last().1.applied(f, *event)));
                        }
                    },
                }
            },
            None => {
                let mut i: usize = 0;
                while i < self.devices.len()
                    invariant
                        0 <= i <= self.devices@.len(),
                        self.devices@.len() == orig.len(),
                        forall|j: int| i <= j < orig.len() ==> self.devices@[j] == orig[j],
                        forall|j: int| 0 <= j < i ==> (#[trigger] self.devices@[j]).0 == orig[j].0
                            && self.devices@[j].1.applied(orig[j].1, *event) && self.devices@[j].1.device_wf(),
                        forall|j: int| 0 <= j < orig.len() ==> (#[trigger] orig[j]).1.device_wf(),
                        self.unidentified is None,
                        orig.len() > 0,
                    decreases self.devices.len() - i,
                {
                    assert(self.devices@[i as int] == orig[i as int]);
                    assert(orig[i as int].1.device_wf());
                    let (did, mut dev) = self.devices.remove(i);
                    dev.apply(event);
                    self.devices.insert(i, (did, dev));
                    i += 1;
                }
                proof {
                    assert forall|a: int, b: int| 0 <= a < b < self.devices@.len() implies (#[trigger] self.devices@[a]).0 != (#[trigger] self.devices@[b]).0 by {
                        assert(self.devices@[a].0 == orig[a].0);
                        assert(self.devices@[b].0 == orig[b].0);
                    }
                    assert(self.wf());
                }
            },
        }
    }
}

/// The device chosen for a query: the given device if it is identified; with no given
/// device, the most recently used device if it is identified, and otherwise any device
pub open spec fn select_device<V: InputDevice>(set: DeviceSet<V>, most_recent: Option<u64>, query: Option<u64>) -> Option<V> {
    match query {
        Some(id) => set.identified(id),
        None => match most_recent {
            Some(latest) => match set.identified(latest) {
                Some(v) => Some(v),
                None => Some(set.any_device()),
            },
            None => Some(set.any_device()),
        },
    }
}

/// Looks up the device chosen for a query, as [select_device] describes
fn get_device_and<V: InputDevice>(set: &DeviceSet<V>, most_recent: Option<u64>, query: Option<u64>) -> (r: Option<&V>)
    requires
        set.wf(),
    ensures
        match r {
            Some(v) => select_device(*set, most_recent, query) == Some(*v),
            None => select_device(*set, most_recent, query) is None,
        },
{
    match query {
        Some(id) => set.get_identified_device(id),
        None => match most_recent {
            Some(latest) => match set.get_identified_device(latest) {
                Some(v) => Some(v),
                None => Some(set.get_any_device()),
            },
            None => Some(set.get_any_device()),
        },
    }
}

/// Raw input manager: all known keyboards and mice, and the most recently used ones
pub struct InputManager {
    /// The most recently used mouse
    pub most_recent_mouse: Option<MouseId>,
    /// The most recently used keyboard
    pub most_recent_keyboard: Option<KeyboardId>,
    /// All known mice
    pub mice: DeviceSet<Mouse>,
    /// All known keyboards
    pub keyboards: DeviceSet<Keyboard>,
}

/// The raw ID of an optional mouse
pub open spec fn mouse_raw(m: Option<MouseId>) -> Option<u64> {
    match m {
        Some(id) => Some(id.0),
        None => None,
    }
}

/// The raw ID of an optional keyboard
pub open spec fn keyboard_raw(k: Option<KeyboardId>) -> Option<u64> {
    match k {
        Some(id) => Some(id.0),
        None => None,
    }
}

fn mouse_raw_exec(m: Option<MouseId>) -> (r: Option<u64>)
    ensures
        r == mouse_raw(m),
{
    match m {
        Some(id) => Some(id.0),
        None => None,
    }
}

fn keyboard_raw_exec(k: Option<KeyboardId>) -> (r: Option<u64>)
    ensures
        r == keyboard_raw(k),
{
    match k {
        Some(id) => Some(id.0),
        None => None,
    }
}

impl InputManager {
    /// Returns a new [InputManager] with one fresh unidentified mouse and keyboard
    pub fn new() -> (r: Self)
        ensures
            r.wf(),
            r.most_recent_mouse is None,
            r.most_recent_keyboard is None,
            r.mice.unidentified matches Some(m) && m.is_fresh(),
            r.keyboards.unidentified matches Some(k) && k.is_fresh(),
    {
        InputManager {
            most_recent_mouse: None,
            most_recent_keyboard: None,
            mice: DeviceSet::new(),
            keyboards: DeviceSet::new(),
        }
    }

    /// Both device sets are well formed
    pub open spec fn wf(&self) -> bool {
        self.mice.wf() && self.keyboards.wf()
    }

    /// The keyboard a keyboard query for `device` reads
    pub open spec fn selected_keyboard(&self, device: Option<KeyboardId>) -> Option<Keyboard> {
        select_device(self.keyboards, keyboard_raw(self.most_recent_keyboard), keyboard_raw(device))
    }

    /// The mouse a mouse query for `device` reads
    pub open spec fn selected_mouse(&self, device: Option<MouseId>) -> Option<Mouse> {
        select_device(self.mice, mouse_raw(self.most_recent_mouse), mouse_raw(device))
    }

    /// Returns the keyboard a query for `device` reads
    pub fn get_keyboard(&self, device: Option<KeyboardId>) -> (r: Option<&Keyboard>)
        requires
            self.wf(),
        ensures
            match r {
                Some(k) => self.selected_keyboard(device) == Some(*k),
                None => self.selected_keyboard(device) is None,
            },
    {
        get_device_and(&self.keyboards, keyboard_raw_exec(self.most_recent_keyboard), keyboard_raw_exec(device))
    }

    /// Returns the mouse a query for `device` reads
    pub fn get_mouse(&self, device: Option<MouseId>) -> (r: Option<&Mouse>)
        requires
            self.wf(),
        ensures
            match r {
                Some(m) => self.selected_mouse(device) == Some(*m),
                None => self.selected_mouse(device) is None,
            },
    {
        get_device_and(&self.mice, mouse_raw_exec(self.most_recent_mouse), mouse_raw_exec(device))
    }

    /// Removes a native device, as a mouse and as a keyboard
    pub fn remove_device(&mut self, device: u64)
        requires
            old(self).wf(),
        ensures
            final(self).wf(),
            final(self).most_recent_mouse == old(self).most_recent_mouse,
            final(self).most_recent_keyboard == old(self).most_recent_keyboard,
            final(self).mice.removed_from(old(self).mice, device),
            final(self).keyboards.removed_from(old(self).keyboards, device),
    {
        self.mice.remove_device(device);
        self.keyboards.remove_device(device);
    }

    /// This state is `before` advanced to the next frame: the same devices under the same
    /// IDs and the same most recent devices, each device advanced on its own (held keys and
    /// buttons kept and now also held in the previous frame, logical inputs cleared, cursor
    /// windows kept)
    pub open spec fn frame_advanced(&self, before: InputManager) -> bool {
        &&& self.most_recent_mouse == before.most_recent_mouse
        &&& self.most_recent_keyboard == before.most_recent_keyboard
        &&& self.keyboards.devices@.len() == before.keyboards.devices@.len()
        &&& forall|i: int| 0 <= i < before.keyboards.devices@.len() ==> (#[trigger] self.keyboards.devices@[i]).0 == before.keyboards.devices@[i].0
            && self.keyboards.devices@[i].1.frame_ended(before.keyboards.devices@[i].1)
        &&& match before.keyboards.unidentified {
            Some(v) => self.keyboards.unidentified matches Some(w) && w.frame_ended(v),
            None => self.keyboards.unidentified is None,
        }
        &&& self.mice.devices@.len() == before.mice.devices@.len()
        &&& forall|i: int| 0 <= i < before.mice.devices@.len() ==> (#[trigger] self.mice.devices@[i]).0 == before.mice.devices@[i].0
            && self.mice.devices@[i].1.frame_ended(before.mice.devices@[i].1)
        &&& match before.mice.unidentified {
            Some(v) => self.mice.unidentified matches Some(w) && w.frame_ended(v),
            None => self.mice.unidentified is None,
        }
    }

    /// Advances the input manager and all devices to the next frame
    pub fn end_frame(&mut self)
        requires
            old(self).wf(),
        ensures
            final(self).wf(),
            final(self).frame_advanced(*old(self)),
    {
        self.mice.end_frame_all();
        self.keyboards.end_frame_all();
    }

    /// Applies a mouse event to the given mouse (or all mice, if [None]), and records
    /// an identified mouse as the most recent one
    pub fn mouse_event(&mut self, mouse: Option<MouseId>, event: &MouseEvent)
        requires
            old(self).wf(),
        ensures
            final(self).wf(),
            final(self).most_recent_mouse == match mouse {
                Some(m) => Some(m),
                None => old(self).most_recent_mouse,
            },
            final(self).most_recent_keyboard == old(self).most_recent_keyboard,
            final(self).keyboards == old(self).keyboards,
            final(self).mice.updated_from(old(self).mice, mouse_raw(mouse), *event),
    {
        if let Some(identified_mouse) = mouse {
            self.most_recent_mouse = Some(identified_mouse);
        }
        self.mice.update_device(mouse_raw_exec(mouse), event);
    }

    /// Applies a keyboard event to the given keyboard (or all keyboards, if [None]), and
    /// records an identified keyboard as the most recent one
    pub fn keyboard_event(&mut self, keyboard: Option<KeyboardId>, event: &KeyboardEvent)
        requires
            old(self).wf(),
        ensures
            final(self).wf(),
            final(self).most_recent_keyboard == match keyboard {
                Some(k) => Some(k),
                None => old(self).most_recent_keyboard,
            },
            final(self).most_recent_mouse == old(self).most_recent_mouse,
            final(self).mice == old(self).mice,
            final(self).keyboards.updated_from(old(self).keyboards, keyboard_raw(keyboard), *event),
    {
        if let Some(identified_keyboard) = keyboard {
            self.most_recent_keyboard = Some(identified_keyboard);
        }
        self.keyboards.update_device(keyboard_raw_exec(keyboard), event);
    }

    /// Sets the physical key state for the given keyboard
    pub fn keyboard_key(&mut self, keyboard: Option<KeyboardId>, key: keyboard::Key, pressed: bool)
        requires
            old(self).wf(),
        ensures
            final(self).wf(),
            final(self).most_recent_keyboard == match keyboard {
                Some(k) => Some(k),
                None => old(self).most_recent_keyboard,
            },
            final(self).most_recent_mouse == old(self).most_recent_mouse,
            final(self).mice == old(self).mice,
            final(self).keyboards.updated_from(old(self).keyboards, keyboard_raw(keyboard), KeyboardEvent::Key(key, pressed)),
    {
        self.keyboard_event(keyboard, &KeyboardEvent::Key(key, pressed));
    }

    /// Adds a logical key input to the given keyboard
    pub fn keyboard_logical_key(&mut self, keyboard: Option<KeyboardId>, logical_key: LogicalKey, pressed: bool)
        requires
            old(self).wf(),
        ensures
            final(self).wf(),
            final(self).most_recent_keyboard == match keyboard {
                Some(k) => Some(k),
                None => old(self).most_recent_keyboard,
            },
            final(self).most_recent_mouse == old(self).most_recent_mouse,
            final(self).mice == old(self).mice,
            final(self).keyboards.updated_from(old(self).keyboards, keyboard_raw(keyboard), KeyboardEvent::Logical(if pressed { LogicalInput::Pressed(logical_key) } else { LogicalInput::Released(logical_key) })),
    {
        let input = if pressed {
            LogicalInput::Pressed(logical_key)
        } else {
            LogicalInput::Released(logical_key)
        };
        self.keyboard_event(keyboard, &KeyboardEvent::Logical(input));
    }

    /// Adds text input to the given keyboard. The text must not be empty
    pub fn keyboard_text(&mut self, keyboard: Option<KeyboardId>, text: &str)
        requires
            old(self).wf(),
            text@.len() > 0,
        ensures
            final(self).wf(),
            final(self).most_recent_keyboard == match keyboard {
                Some(k) => Some(k),
                None => old(self).most_recent_keyboard,
            },
            final(self).most_recent_mouse == old(self).most_recent_mouse,
            final(self).mice == old(self).mice,
            exists|t: String| t@ == text@ && final(self).keyboards.updated_from(
                old(self).keyboards,
                keyboard_raw(keyboard),
                KeyboardEvent::Logical(LogicalInput::Text(t)),
            ),
    {
        let input = LogicalInput::Text(text.to_owned());
        self.keyboard_event(keyboard, &KeyboardEvent::Logical(input));
    }

    /// Sets the physical mouse button state for a given mouse
    pub fn mouse_button(&mut self, mouse: Option<MouseId>, button: u32, pressed: bool)
        requires
            old(self).wf(),
        ensures
            final(self).wf(),
            final(self).most_recent_mouse == match mouse {
                Some(m) => Some(m),
                None => old(self).most_recent_mouse,
            },
            final(self).most_recent_keyboard == old(self).most_recent_keyboard,
            final(self).keyboards == old(self).keyboards,
            final(self).mice.updated_from(old(self).mice, mouse_raw(mouse), MouseEvent::Button(button, pressed)),
    {
        self.mouse_event(mouse, &MouseEvent::Button(button, pressed));
    }

    /// Sets the window the cursor of the given mouse is on ([None] when it is on no window)
    pub fn mouse_window_position(&mut self, mouse: Option<MouseId>, window: Option<WindowIdentifier>)
        requires
            old(self).wf(),
        ensures
            final(self).wf(),
            final(self).most_recent_mouse == match mouse {
                Some(m) => Some(m),
                None => old(self).most_recent_mouse,
            },
            final(self).most_recent_keyboard == old(self).most_recent_keyboard,
            final(self).keyboards == old(self).keyboards,
            final(self).mice.updated_from(old(self).mice, mouse_raw(mouse), MouseEvent::Window(window)),
    {
        self.mouse_event(mouse, &MouseEvent::Window(window));
    }

    /// Registers movement or scrolling of the given mouse. The amounts themselves are
    /// kept by the caller; the manager tracks that the mouse exists and is the most recent
    pub fn mouse_motion(&mut self, mouse: Option<MouseId>)
        requires
            old(self).wf(),
        ensures
            final(self).wf(),
            final(self).most_recent_mouse == match mouse {
                Some(m) => Some(m),
                None => old(self).most_recent_mouse,
            },
            final(self).most_recent_keyboard == old(self).most_recent_keyboard,
            final(self).keyboards == old(self).keyboards,
            final(self).mice.updated_from(old(self).mice, mouse_raw(mouse), MouseEvent::Motion),
    {
        self.mouse_event(mouse, &MouseEvent::Motion);
    }
}

/// A keyboard input event as the windowing system reports it
pub struct KeyboardInput {
    /// The physical key, if it has a key code
    pub key: Option<keyboard::Key>,
    /// The logical key, if it has one
    pub logical_key: Option<LogicalKey>,
    /// Whether the key was pressed (`true`) or released (`false`)
    pub pressed: bool,
    /// The text the key produced, if any
    pub text: Option<String>,
    /// Whether the windowing system generated the event itself
    pub is_synthetic: bool,
}

/// `after` is `before` with the keyboard event applied to the keyboard, or unchanged
/// when there is no event
pub open spec fn keyboard_step(before: InputManager, after: InputManager, keyboard: Option<KeyboardId>, event: Option<KeyboardEvent>) -> bool {
    match event {
        None => after == before,
        Some(e) => {
            &&& after.wf()
            &&& after.mice == before.mice
            &&& after.most_recent_mouse == before.most_recent_mouse
            &&& after.most_recent_keyboard == match keyboard {
                Some(k) => Some(k),
                None => before.most_recent_keyboard,
            }
            &&& after.keyboards.updated_from(before.keyboards, keyboard_raw(keyboard), e)
        },
    }
}

/// The physical key event of a keyboard input, if it has a key code
pub open spec fn key_event_of(input: KeyboardInput) -> Option<KeyboardEvent> {
    match input.key {
        Some(k) => Some(KeyboardEvent::Key(k, input.pressed)),
        None => None,
    }
}

/// The logical key event of a keyboard input, if it has a logical key
pub open spec fn logical_event_of(input: KeyboardInput) -> Option<KeyboardEvent> {
    match input.logical_key {
        Some(l) => Some(KeyboardEvent::Logical(if input.pressed { LogicalInput::Pressed(l) } else { LogicalInput::Released(l) })),
        None => None,
    }
}

/// The text event of a keyboard input: only for a press that produced text
pub open spec fn text_event_of(input: KeyboardInput) -> Option<KeyboardEvent> {
    match input.text {
        Some(t) => if input.pressed && t@.len() > 0 { Some(KeyboardEvent::Logical(LogicalInput::Text(t))) } else { None },
        None => None,
    }
}

impl InputManager {
    /// Registers a keyboard input event of a window: the physical key, then the logical
    /// key, then, for a press, the text it produced. Events that the windowing system
    /// generated itself change nothing
    pub fn keyboard_input(&mut self, keyboard: Option<KeyboardId>, input: KeyboardInput)
        requires
            old(self).wf(),
        ensures
            final(self).wf(),
            input.is_synthetic ==> *final(self) == *old(self),
            !input.is_synthetic ==> exists|m1: InputManager, m2: InputManager|
                keyboard_step(*old(self), m1, keyboard, key_event_of(input)) && keyboard_step(m1, m2, keyboard, logical_event_of(input))
                    && keyboard_step(m2, *final(self), keyboard, text_event_of(input)),
    {
        if input.is_synthetic {
            return;
        }
        let ghost input_g = input;
        let ghost m0 = *self;
        let KeyboardInput { key, logical_key, pressed, text, is_synthetic: _ } = input;
        if let Some(k) = key {
            self.keyboard_event(keyboard, &KeyboardEvent::Key(k, pressed));
        }
        let ghost m1 = *self;
        if let Some(l) = logical_key {
            let li = if pressed { LogicalInput::Pressed(l) } else { LogicalInput::Released(l) };
            self.keyboard_event(keyboard, &KeyboardEvent::Logical(li));
        }
        let ghost m2 = *self;
        if let Some(t) = text {
            if pressed && t.as_str().unicode_len() > 0 {
                self.keyboard_event(keyboard, &KeyboardEvent::Logical(LogicalInput::Text(t)));
            }
        }
        proof {
            assert(keyboard_step(m0, m1, keyboard, key_event_of(input_g)));
            assert(keyboard_step(m1, m2, keyboard, logical_event_of(input_g)));
            assert(keyboard_step(m2, *self, keyboard, text_event_of(input_g)));
        }
    }
}

/// Resets all per-frame values. Should be called at the end of each rendered frame,
/// so all new input events count for the next frame
pub fn end_frame(manager: &mut InputManager)
    requires
        old(manager).wf(),
    ensures
        final(manager).wf(),
        final(manager).frame_advanced(*old(manager)),
        forall|d: Option<KeyboardId>, k: keyboard::Key| !#[trigger] keyboard::spec_key_pressed(final(manager).selected_keyboard(d), k)
            && !keyboard::spec_key_released(final(manager).selected_keyboard(d), k),
        forall|d: Option<MouseId>, b: u32| !#[trigger] mouse::spec_button_pressed(final(manager).selected_mouse(d), b)
            && !mouse::spec_button_released(final(manager).selected_mouse(d), b),
{
    manager.end_frame();
    proof {
        lemma_end_frame_quiet(*old(manager), *manager);
    }
}

/// After the end of a frame, no key or button counts as just pressed or just released
pub proof fn lemma_end_frame_quiet(before: InputManager, after: InputManager)
    requires
        before.wf(),
        after.wf(),
        after.frame_advanced(before),
    ensures
        forall|d: Option<KeyboardId>, k: keyboard::Key| !#[trigger] keyboard::spec_key_pressed(after.selected_keyboard(d), k)
            && !keyboard::spec_key_released(after.selected_keyboard(d), k),
        forall|d: Option<MouseId>, b: u32| !#[trigger] mouse::spec_button_pressed(after.selected_mouse(d), b)
            && !mouse::spec_button_released(after.selected_mouse(d), b),
{
    assert forall|d: Option<KeyboardId>, k: keyboard::Key| !#[trigger] keyboard::spec_key_pressed(after.selected_keyboard(d), k)
        && !keyboard::spec_key_released(after.selected_keyboard(d), k) by {
        let sel = after.selected_keyboard(d);
        if sel is Some {
            let kb = sel->0;
            assert(kb.prev_pressed_keys@ == kb.pressed_keys@) by {
                lemma_selected_ended(after.keyboards, keyboard_raw(after.most_recent_keyboard), keyboard_raw(d), before.keyboards);
            }
        }
    }
    assert forall|d: Option<MouseId>, b: u32| !#[trigger] mouse::spec_button_pressed(after.selected_mouse(d), b)
        && !mouse::spec_button_released(after.selected_mouse(d), b) by {
        let sel = after.selected_mouse(d);
        if sel is Some {
            let m = sel->0;
            assert(m.prev_pressed_buttons@ == m.pressed_buttons@) by {
                lemma_selected_ended(after.mice, mouse_raw(after.most_recent_mouse), mouse_raw(d), before.mice);
            }
        }
    }
}

/// Any device of a set whose devices all ended their frame is a device that ended its frame
proof fn lemma_selected_ended<V: InputDevice>(after: DeviceSet<V>, recent: Option<u64>, query: Option<u64>, before: DeviceSet<V>)
    requires
        after.wf(),
        before.wf(),
        after.devices@.len() == before.devices@.len(),
        forall|i: int| 0 <= i < before.devices@.len() ==> (#[trigger] after.devices@[i]).0 == before.devices@[i].0
            && after.devices@[i].1.frame_ended(before.devices@[i].1),
        match before.unidentified {
            Some(v) => after.unidentified matches Some(w) && w.frame_ended(v),
            None => after.unidentified is None,
        },
    ensures
        select_device(after, recent, query) matches Some(v) ==> exists|b: V| #[trigger] v.frame_ended(b),
{
    if select_device(after, recent, query) is Some {
        let v = select_device(after, recent, query)->0;
        let is_identified = match query {
            Some(id) => true,
            None => match recent {
                Some(latest) => after.identified(latest) is Some,
                None => false,
            },
        };
        if is_identified {
            let id = match query {
                Some(id) => id,
                None => recent->0,
            };
            let i = choose|i: int| 0 <= i < after.devices@.len() && (#[trigger] after.devices@[i]).0 == id;
            assert(v.frame_ended(before.devices@[i].1));
        } else {
            match before.unidentified {
                Some(u) => {
                    assert(v.frame_ended(u));
                },
                None => {
                    assert(v.frame_ended(before.devices@[0].1));
                },
            }
        }
    }
}

/// A query that names a keyboard reads exactly the keyboard with that ID, never another one:
/// the identified keyboard whose raw ID it is, and no keyboard at all when none has that ID
/// (the most recently used keyboard is read only by queries that name none). So for a
/// keyboard that is not connected, no key counts as pressed, held or released
pub proof fn lemma_keyboard_query_reads_named_device(m: InputManager, id: KeyboardId, key: keyboard::Key)
    requires
        m.wf(),
    ensures
        forall|i: int| 0 <= i < m.keyboards.devices@.len() && (#[trigger] m.keyboards.devices@[i]).0 == id.0
            ==> m.selected_keyboard(Some(id)) == Some(m.keyboards.devices@[i].1),
        (forall|i: int| 0 <= i < m.keyboards.devices@.len() ==> (#[trigger] m.keyboards.devices@[i]).0 != id.0)
            ==> {
            &&& m.selected_keyboard(Some(id)) is None
            &&& !keyboard::spec_key_pressed(m.selected_keyboard(Some(id)), key)
            &&& !keyboard::spec_key_held(m.selected_keyboard(Some(id)), key)
            &&& !keyboard::spec_key_released(m.selected_keyboard(Some(id)), key)
        },
{
    let devs = m.keyboards.devices@;
    assert forall|i: int| 0 <= i < devs.len() && (#[trigger] devs[i]).0 == id.0 implies m.selected_keyboard(Some(id))
        == Some(devs[i].1) by {
        let c = choose|c: int| 0 <= c < devs.len() && (#[trigger] devs[c]).0 == id.0;
        if c != i {
            if c < i {
                assert(devs[c].0 != devs[i].0);
            } else {
                assert(devs[i].0 != devs[c].0);
            }
        }
    }
}

/// A query that names a mouse reads exactly the mouse with that ID, never another one: the
/// identified mouse whose raw ID it is, and no mouse at all when none has that ID. So for a
/// mouse that is not connected, no button counts as pressed, held or released, and its
/// cursor is on no window
pub proof fn lemma_mouse_query_reads_named_device(m: InputManager, id: MouseId, button: u32)
    requires
        m.wf(),
    ensures
        forall|i: int| 0 <= i < m.mice.devices@.len() && (#[trigger] m.mice.devices@[i]).0 == id.0
            ==> m.selected_mouse(Some(id)) == Some(m.mice.devices@[i].1),
        (forall|i: int| 0 <= i < m.mice.devices@.len() ==> (#[trigger] m.mice.devices@[i]).0 != id.0) ==> {
            &&& m.selected_mouse(Some(id)) is None
            &&& !mouse::spec_button_pressed(m.selected_mouse(Some(id)), button)
            &&& !mouse::spec_button_held(m.selected_mouse(Some(id)), button)
            &&& !mouse::spec_button_released(m.selected_mouse(Some(id)), button)
        },
{
    let devs = m.mice.devices@;
    assert forall|i: int| 0 <= i < devs.len() && (#[trigger] devs[i]).0 == id.0 implies m.selected_mouse(Some(id))
        == Some(devs[i].1) by {
        let c = choose|c: int| 0 <= c < devs.len() && (#[trigger] devs[c]).0 == id.0;
        if c != i {
            if c < i {
                assert(devs[c].0 != devs[i].0);
            } else {
                assert(devs[i].0 != devs[c].0);
            }
        }
    }
}

} // verus!
