//! The entries for a machine's network interfaces, by name and in the order of
//! their names.
use vstd::prelude::*;

use crate::os_interfaces::Interface;
use crate::text::{
    beginnings_come_first, comes_before, precedes, precedes_is_irreflexive, precedes_is_total,
    precedes_is_transitive, same_text,
};

verus! {

/// The names of the entries increase.
pub open spec fn in_order(entries: Seq<(String, Interface)>) -> bool {
    forall|i: int, j: int|
        0 <= i < j < entries.len() ==> precedes(
            (#[trigger] entries[i]).0@,
            (#[trigger] entries[j]).0@,
        )
}

/// Some entry has the name `key`.
pub open spec fn has_key(entries: Seq<(String, Interface)>, key: Seq<char>) -> bool {
    exists|i: int| 0 <= i < entries.len() && (#[trigger] entries[i]).0@ == key
}

/// The entries as a map from their names.
pub open spec fn map_of(entries: Seq<(String, Interface)>) -> Map<Seq<char>, Interface> {
    Map::new(
        |key: Seq<char>| has_key(entries, key),
        |key: Seq<char>|
            entries[choose|i: int| 0 <= i < entries.len() && (#[trigger] entries[i]).0@ == key].1,
    )
}

/// The map holds each entry under its name.
proof fn map_holds_entries(entries: Seq<(String, Interface)>, i: int)
    requires
        in_order(entries),
        0 <= i < entries.len(),
    ensures
        map_of(entries).dom().contains(entries[i].0@),
        map_of(entries)[entries[i].0@] == entries[i].1,
{
    let key = entries[i].0@;
    assert(has_key(entries, key));
    let k = choose|k: int| 0 <= k < entries.len() && (#[trigger] entries[k]).0@ == key;
    precedes_is_irreflexive(key);
    assert(k == i);
}

/// Where an entry named `key` stands or would stand, and whether it stands there.
pub(crate) fn locate(entries: &Vec<(String, Interface)>, key: &str) -> (place: (usize, bool))
    requires
        in_order(entries@),
    ensures
        place.0 <= entries@.len(),
        forall|i: int| 0 <= i < place.0 ==> precedes((#[trigger] entries@[i]).0@, key@),
        forall|i: int|
            place.0 <= i < entries@.len() && !(place.1 && i == place.0) ==> precedes(
                key@,
                (#[trigger] entries@[i]).0@,
            ),
        place.1 ==> place.0 < entries@.len() && entries@[place.0 as int].0@ == key@,
        place.1 == map_of(entries@).dom().contains(key@),
        place.1 ==> map_of(entries@)[key@] == entries@[place.0 as int].1,
{
    let mut at: usize = 0;
    while at < entries.len() && comes_before(entries[at].0.as_str(), key)
        invariant
            at <= entries@.len(),
            forall|i: int| 0 <= i < at ==> precedes((#[trigger] entries@[i]).0@, key@),
        decreases entries@.len() - at,
    {
        at += 1;
    }
    let found = at < entries.len() && same_text(entries[at].0.as_str(), key);
    proof {
        precedes_is_irreflexive(key@);
        if at < entries@.len() {
            precedes_is_total(entries@[at as int].0@, key@);
            assert forall|i: int| at < i < entries@.len() implies precedes(
                key@,
                (#[trigger] entries@[i]).0@,
            ) by {
                if !found {
                    precedes_is_transitive(key@, entries@[at as int].0@, entries@[i].0@);
                }
            }
        }
        if found {
            map_holds_entries(entries@, at as int);
        }
    }
    (at, found)
}

/// Enters `value` under the name `key`, at the place that [`locate`] gave.
pub(crate) fn enter(
    entries: &mut Vec<(String, Interface)>,
    place: (usize, bool),
    key: String,
    value: Interface,
)
    requires
        in_order(old(entries)@),
        place.0 <= old(entries)@.len(),
        place.1 ==> place.0 < old(entries)@.len(),
        forall|i: int| 0 <= i < place.0 ==> precedes((#[trigger] old(entries)@[i]).0@, key@),
        forall|i: int|
            place.0 <= i < old(entries)@.len() && !(place.1 && i == place.0) ==> precedes(
                key@,
                (#[trigger] old(entries)@[i]).0@,
            ),
        place.1 ==> old(entries)@[place.0 as int].0@ == key@,
    ensures
        in_order(final(entries)@),
        map_of(final(entries)@) == map_of(old(entries)@).insert(key@, value),
{
    let ghost before = entries@;
    let ghost name = key@;
    let at = place.0;
    if place.1 {
        entries.set(at, (key, value));
    } else {
        entries.insert(at, (key, value));
    }
    proof {
        let after = entries@;
        let shift: int = if place.1 {
            0
        } else {
            1
        };
        assert(after[at as int].0@ == name && after[at as int].1 == value);
        assert forall|i: int| 0 <= i < at implies #[trigger] after[i] == before[i] by {}
        assert forall|i: int| at < i < after.len() implies #[trigger] after[i] == before[i
            - shift] by {}
        assert(in_order(after));
        let want = map_of(before).insert(name, value);
        assert forall|k: Seq<char>| map_of(after).dom().contains(k) <==> want.dom().contains(k) by {
            if has_key(after, k) {
                let i = choose|i: int| 0 <= i < after.len() && (#[trigger] after[i]).0@ == k;
                if i < at {
                    assert(before[i].0@ == k);
                } else if i > at {
                    assert(before[i - shift].0@ == k);
                }
            }
            if has_key(before, k) {
                let i = choose|i: int| 0 <= i < before.len() && (#[trigger] before[i]).0@ == k;
                if i < at {
                    assert(after[i].0@ == k);
                } else if place.1 && i == at {
                    assert(after[at as int].0@ == k);
                } else {
                    assert(after[i + shift].0@ == k);
                }
            }
            if k == name {
                assert(has_key(after, k));
            }
        }
        assert forall|k: Seq<char>| map_of(after).dom().contains(k) implies map_of(after)[k]
            == want[k] by {
            let i = choose|i: int| 0 <= i < after.len() && (#[trigger] after[i]).0@ == k;
            map_holds_entries(after, i);
            precedes_is_irreflexive(name);
            if i < at {
                map_holds_entries(before, i);
            } else if i > at {
                map_holds_entries(before, i - shift);
            }
        }
        assert(map_of(after) =~= want);
    }
}

/// Network interfaces by name. No name occurs twice, and the entries stand in
/// the order of their names.
#[derive(Debug, PartialEq, Eq)]
pub struct InterfaceMap {
    entries: Vec<(String, Interface)>,
}

impl View for InterfaceMap {
    type V = Map<Seq<char>, Interface>;

    closed spec fn view(&self) -> Map<Seq<char>, Interface> {
        map_of(self.entries@)
    }
}

impl InterfaceMap {
    /// The entries stand in the order of their names.
    #[verifier::type_invariant]
    spec fn ordered(self) -> bool {
        in_order(self.entries@)
    }

    /// The map with the given entries.
    pub(crate) fn from_entries(entries: Vec<(String, Interface)>) -> (map: InterfaceMap)
        requires
            in_order(entries@),
        ensures
            map@ == map_of(entries@),
    {
        InterfaceMap { entries }
    }

    /// The entry named `key`.
    pub fn get(&self, key: &str) -> (found: Option<&Interface>)
        ensures
            match found {
                Some(interface) => self@.dom().contains(key@) && self@[key@] == *interface,
                None => !self@.dom().contains(key@),
            },
    {
        proof {
            use_type_invariant(self);
        }
        let (at, found) = locate(&self.entries, key);
        if found {
            Some(&self.entries[at].1)
        } else {
            None
        }
    }

    /// All entries, in the order of their names.
    pub fn entries(&self) -> (entries: &Vec<(String, Interface)>)
        ensures
            in_order(entries@),
            map_of(entries@) == self@,
    {
        proof {
            use_type_invariant(self);
        }
        &self.entries
    }

    /// The number of entries.
    pub fn len(&self) -> (len: usize)
        ensures
            self@.dom().finite(),
            len == self@.dom().len(),
    {
        proof {
            use_type_invariant(self);
            entries_count(self.entries@);
        }
        self.entries.len()
    }

    /// Whether there are no entries.
    pub fn is_empty(&self) -> (empty: bool)
        ensures
            empty == (self@ == Map::<Seq<char>, Interface>::empty()),
    {
        proof {
            use_type_invariant(self);
            if self.entries@.len() > 0 {
                map_holds_entries(self.entries@, 0);
            } else {
                assert(self@ =~= Map::<Seq<char>, Interface>::empty());
            }
        }
        self.entries.len() == 0
    }
}

/// There are as many names as entries.
proof fn entries_count(entries: Seq<(String, Interface)>)
    requires
        in_order(entries),
    ensures
        map_of(entries).dom().finite(),
        map_of(entries).dom().len() == entries.len(),
    decreases entries.len(),
{
    if entries.len() == 0 {
        assert(map_of(entries).dom() =~= Set::empty());
    } else {
        let rest = entries.drop_last();
        let name = entries.last().0@;
        entries_count(rest);
        precedes_is_irreflexive(name);
        assert forall|k: Seq<char>| has_key(entries, k) <==> k == name || has_key(rest, k) by {
            if has_key(entries, k) {
                let i = choose|i: int| 0 <= i < entries.len() && (#[trigger] entries[i]).0@ == k;
                if i < rest.len() {
                    assert(rest[i].0@ == k);
                }
            }
            if has_key(rest, k) {
                let i = choose|i: int| 0 <= i < rest.len() && (#[trigger] rest[i]).0@ == k;
                assert(entries[i].0@ == k);
            }
            if k == name {
                assert(entries[entries.len() - 1].0@ == k);
            }
        }
        assert(!has_key(rest, name)) by {
            if has_key(rest, name) {
                let i = choose|i: int| 0 <= i < rest.len() && (#[trigger] rest[i]).0@ == name;
                assert(precedes(entries[i].0@, entries[entries.len() - 1].0@));
            }
        }
        assert(map_of(entries).dom() =~= map_of(rest).dom().insert(name));
    }
}

/// The map and the entries hold the same: every entry stands in the map under
/// its own name, and the map has no other names.
pub proof fn entries_and_map_agree(entries: Seq<(String, Interface)>, key: Seq<char>)
    requires
        in_order(entries),
    ensures
        map_of(entries).dom().contains(key) <==> exists|i: int|
            0 <= i < entries.len() && (#[trigger] entries[i]).0@ == key,
        forall|i: int|
            0 <= i < entries.len() ==> map_of(entries)[(#[trigger] entries[i]).0@] == entries[i].1,
{
    assert forall|i: int| 0 <= i < entries.len() implies map_of(entries)[(
    #[trigger] entries[i]).0@] == entries[i].1 by {
        map_holds_entries(entries, i);
    }
}

/// Entries in order have different names, and a name that begins another comes
/// before it.
pub proof fn names_are_ordered_and_differ(entries: Seq<(String, Interface)>, i: int, j: int)
    requires
        in_order(entries),
        0 <= i < j < entries.len(),
    ensures
        entries[i].0@ != entries[j].0@,
        !precedes(entries[j].0@, entries[i].0@),
        !(entries[j].0@.len() < entries[i].0@.len() && entries[j].0@.is_prefix_of(entries[i].0@)),
{
    let a = entries[i].0@;
    let b = entries[j].0@;
    precedes_is_irreflexive(a);
    if precedes(b, a) {
        precedes_is_transitive(a, b, a);
    }
    if b.len() < a.len() && b.is_prefix_of(a) {
        assert(a =~= b + a.skip(b.len() as int));
        beginnings_come_first(b, a.skip(b.len() as int));
    }
}

} // verus!
