//! Named screen positions of game buttons, and the bookkeeping of an
//! interactive mapping session.
use vstd::prelude::*;
use vstd::string::*;
use crate::text::{trim, trimmed};

verus! {

/// A screen position in pixels.
#[derive(Clone, Copy, Debug, PartialEq, Eq, Structural)]
pub struct Coord {
    pub x: i32,
    pub y: i32,
}

/// The map that an association list denotes; a later entry for a name wins.
pub open spec fn map_of(s: Seq<(String, Coord)>) -> Map<Seq<char>, Coord>
    decreases s.len(),
{
    if s.len() == 0 {
        Map::empty()
    } else {
        map_of(s.drop_last()).insert(s.last().0@, s.last().1)
    }
}

/// No name occurs twice.
pub open spec fn names_unique(s: Seq<(String, Coord)>) -> bool {
    forall|i: int, j: int| 0 <= i < j < s.len() ==> (#[trigger] s[i]).0@ != (#[trigger] s[j]).0@
}

pub proof fn lemma_map_of(s: Seq<(String, Coord)>)
    requires
        names_unique(s),
    ensures
        forall|k: Seq<char>| #[trigger] map_of(s).contains_key(k) <==> exists|i: int|
            0 <= i < s.len() && (#[trigger] s[i]).0@ == k,
        forall|i: int| 0 <= i < s.len() ==> map_of(s)[(#[trigger] s[i]).0@] == s[i].1,
        map_of(s).dom().finite(),
        map_of(s).dom().len() == s.len(),
    decreases s.len(),
{
    if s.len() > 0 {
        let t = s.drop_last();
        assert(names_unique(t)) by {
            assert forall|i: int, j: int| 0 <= i < j < t.len() implies (#[trigger] t[i]).0@ != (
            #[trigger] t[j]).0@ by {
                assert(t[i] == s[i] && t[j] == s[j]);
            }
        }
        lemma_map_of(t);
        let last = s.last();
        assert(!map_of(t).contains_key(last.0@)) by {
            if map_of(t).contains_key(last.0@) {
                let i = choose|i: int| 0 <= i < t.len() && (#[trigger] t[i]).0@ == last.0@;
                assert(s[i] == t[i]);
                assert(s[s.len() - 1] == last);
            }
        }
        assert forall|k: Seq<char>| #[trigger] map_of(s).contains_key(k) <==> exists|i: int|
            0 <= i < s.len() && (#[trigger] s[i]).0@ == k by {
            if map_of(s).contains_key(k) {
                if k == last.0@ {
                    assert(s[s.len() - 1].0@ == k);
                } else {
                    let i = choose|i: int| 0 <= i < t.len() && (#[trigger] t[i]).0@ == k;
                    assert(s[i] == t[i]);
                }
            }
            if exists|i: int| 0 <= i < s.len() && (#[trigger] s[i]).0@ == k {
                let i = choose|i: int| 0 <= i < s.len() && (#[trigger] s[i]).0@ == k;
                if i < s.len() - 1 {
                    assert(t[i] == s[i]);
                }
            }
        }
        assert forall|i: int| 0 <= i < s.len() implies map_of(s)[(#[trigger] s[i]).0@] == s[i].1 by {
            if i < s.len() - 1 {
                assert(t[i] == s[i]);
                assert(s[i].0@ != s[s.len() - 1].0@);
            }
        }
        assert(map_of(s).dom() == map_of(t).dom().insert(last.0@));
    }
}

/// A map from button names to positions, kept as an association list with
/// unique names.
pub struct CoordMap {
    entries: Vec<(String, Coord)>,
}

impl View for CoordMap {
    type V = Map<Seq<char>, Coord>;

    closed spec fn view(&self) -> Map<Seq<char>, Coord> {
        map_of(self.entries@)
    }
}

impl CoordMap {
    /// Its entries are unique by name.
    pub closed spec fn wf(&self) -> bool {
        names_unique(self.entries@)
    }

    /// The entries in the order in which they were first inserted.
    pub closed spec fn entry_seq(&self) -> Seq<(String, Coord)> {
        self.entries@
    }

    pub fn new() -> (r: CoordMap)
        ensures
            r.wf(),
            r@ == Map::<Seq<char>, Coord>::empty(),
            r.entry_seq().len() == 0,
    {
        CoordMap { entries: Vec::new() }
    }

    /// Index of the entry named `name`.
    fn position(&self, name: &str) -> (r: Option<usize>)
        requires
            self.wf(),
        ensures
            match r {
                Some(i) => i < self.entries@.len() && self.entries@[i as int].0@ == name@,
                None => forall|i: int|
                    0 <= i < self.entries@.len() ==> (#[trigger] self.entries@[i]).0@ != name@,
            },
    {
        let key = String::from_str(name);
        for i in 0..self.entries.len()
            invariant
                key@ == name@,
                forall|j: int| 0 <= j < i ==> (#[trigger] self.entries@[j]).0@ != name@,
        {
            if self.entries[i].0 == key {
                return Some(i);
            }
        }
        None
    }

    /// The position mapped to `name`, if any.
    pub fn get(&self, name: &str) -> (r: Option<Coord>)
        requires
            self.wf(),
        ensures
            r == (if self@.contains_key(name@) {
                Some(self@[name@])
            } else {
                None
            }),
    {
        proof {
            lemma_map_of(self.entries@);
        }
        match self.position(name) {
            Some(i) => Some(self.entries[i].1),
            None => None,
        }
    }

    pub fn contains_key(&self, name: &str) -> (r: bool)
        requires
            self.wf(),
        ensures
            r == self@.contains_key(name@),
    {
        proof {
            lemma_map_of(self.entries@);
        }
        self.position(name).is_some()
    }

    pub fn len(&self) -> (r: usize)
        requires
            self.wf(),
        ensures
            r as nat == self@.dom().len(),
    {
        proof {
            lemma_map_of(self.entries@);
        }
        self.entries.len()
    }

    pub fn is_empty(&self) -> (r: bool)
        requires
            self.wf(),
        ensures
            r == (self@.dom().len() == 0),
    {
        self.len() == 0
    }

    /// Maps `name` to `c`, replacing an earlier position for the same name.
    pub fn insert(&mut self, name: String, c: Coord)
        requires
            old(self).wf(),
        ensures
            final(self).wf(),
            final(self)@ == old(self)@.insert(name@, c),
    {
        proof {
            lemma_map_of(self.entries@);
        }
        match self.position(name.as_str()) {
            Some(i) => {
                let ghost old_entries = self.entries@;
                let ghost k = name@;
                self.entries.set(i, (name, c));
                proof {
                    assert(self.entries@ == old_entries.update(i as int, (self.entries@[i as int])));
                    assert(names_unique(self.entries@)) by {
                        assert forall|a: int, b: int| 0 <= a < b < self.entries@.len() implies (
                        #[trigger] self.entries@[a]).0@ != (#[trigger] self.entries@[b]).0@ by {
                            if a != i && b != i {
                                assert(self.entries@[a] == old_entries[a]);
                                assert(self.entries@[b] == old_entries[b]);
                            } else if a == i {
                                assert(self.entries@[b] == old_entries[b]);
                                assert(old_entries[a].0@ != old_entries[b].0@);
                            } else {
                                assert(self.entries@[a] == old_entries[a]);
                                assert(old_entries[a].0@ != old_entries[b].0@);
                            }
                        }
                    }
                    lemma_map_of(self.entries@);
                    lemma_map_of(old_entries);
                    assert(map_of(self.entries@) =~= map_of(old_entries).insert(k, c)) by {
                        assert forall|key: Seq<char>| map_of(self.entries@).contains_key(key)
                            <==> map_of(old_entries).insert(k, c).contains_key(key) by {
                            if map_of(old_entries).contains_key(key) {
                                let j = choose|j: int| 0 <= j < old_entries.len() && (
                                #[trigger] old_entries[j]).0@ == key;
                                if j == i {
                                    assert(self.entries@[j].0@ == key);
                                } else {
                                    assert(self.entries@[j] == old_entries[j]);
                                }
                            }
                            if map_of(self.entries@).contains_key(key) {
                                let j = choose|j: int| 0 <= j < self.entries@.len() && (
                                #[trigger] self.entries@[j]).0@ == key;
                                if j != i {
                                    assert(self.entries@[j] == old_entries[j]);
                                }
                            }
                        }
                        assert forall|key: Seq<char>| #[trigger] map_of(self.entries@).contains_key(
                            key,
                        ) implies map_of(self.entries@)[key] == map_of(old_entries).insert(
                            k,
                            c,
                        )[key] by {
                            let j = choose|j: int| 0 <= j < self.entries@.len() && (
                            #[trigger] self.entries@[j]).0@ == key;
                            if j != i {
                                assert(self.entries@[j] == old_entries[j]);
                            }
                        }
                    }
                }
            },
            None => {
                let ghost old_entries = self.entries@;
                self.entries.push((name, c));
                proof {
                    assert(self.entries@.drop_last() =~= old_entries);
                    assert(names_unique(self.entries@)) by {
                        assert forall|a: int, b: int| 0 <= a < b < self.entries@.len() implies (
                        #[trigger] self.entries@[a]).0@ != (#[trigger] self.entries@[b]).0@ by {
                            assert(self.entries@[a] == old_entries[a]);
                            if b < old_entries.len() {
                                assert(self.entries@[b] == old_entries[b]);
                            }
                        }
                    }
                }
            },
        }
    }

    /// Inserts every entry of `other`, in its order: the positions of `other`
    /// win over those already present.
    pub fn merge_from(&mut self, other: &CoordMap)
        requires
            old(self).wf(),
            other.wf(),
        ensures
            final(self).wf(),
            final(self)@ == old(self)@.union_prefer_right(other@),
    {
        let ghost start = self@;
        let n = other.entries.len();
        for i in 0..n
            invariant
                n == other.entries@.len(),
                self.wf(),
                self@ == start.union_prefer_right(map_of(other.entries@.take(i as int))),
        {
            let (name, c) = (other.entries[i].0.clone(), other.entries[i].1);
            self.insert(name, c);
            proof {
                let s = other.entries@.take(i + 1);
                assert(s.drop_last() =~= other.entries@.take(i as int));
                assert(s.last() == other.entries@[i as int]);
                assert(self@ =~= start.union_prefer_right(map_of(s)));
            }
        }
        proof {
            assert(other.entries@.take(n as int) =~= other.entries@);
        }
    }

    /// Removes every entry.
    pub fn clear(&mut self)
        ensures
            final(self).wf(),
            final(self)@ == Map::<Seq<char>, Coord>::empty(),
    {
        self.entries.clear();
    }

    /// The entries in insertion order, for listing and saving.
    pub fn entries(&self) -> (r: &Vec<(String, Coord)>)
        ensures
            r@ == self.entry_seq(),
    {
        &self.entries
    }
}

/// The button map of the bot and the file it is saved to.
pub struct CoordinateMapper {
    pub coords_file: String,
    pub coordinates: CoordMap,
}

impl CoordinateMapper {
    /// A mapper over `coordinates`, saved to `coords_file`.
    pub fn new(coords_file: String, coordinates: CoordMap) -> (r: CoordinateMapper)
        ensures
            r.coords_file == coords_file,
            r.coordinates == coordinates,
    {
        CoordinateMapper { coords_file, coordinates }
    }

    /// The position mapped to `name`, if any.
    pub fn get(&self, name: &str) -> (r: Option<Coord>)
        requires
            self.coordinates.wf(),
        ensures
            r == (if self.coordinates@.contains_key(name@) {
                Some(self.coordinates@[name@])
            } else {
                None
            }),
    {
        self.coordinates.get(name)
    }

    /// Takes in the mappings of an imported file: merged over the present
    /// ones, or in place of them.
    pub fn import(&mut self, imported: CoordMap, merge: bool)
        requires
            old(self).coordinates.wf(),
            imported.wf(),
        ensures
            final(self).coordinates.wf(),
            final(self).coords_file == old(self).coords_file,
            final(self).coordinates@ == (if merge {
                old(self).coordinates@.union_prefer_right(imported@)
            } else {
                imported@
            }),
    {
        if merge {
            self.coordinates.merge_from(&imported);
        } else {
            self.coordinates = imported;
        }
    }
}

/// What one poll of the hotkeys asks of a mapping session. Escape and F1
/// end it (Escape first); F2 and F3 may both be acted on in one poll.
#[derive(Clone, Copy, Debug, PartialEq, Eq, Structural)]
pub enum MappingExit {
    Cancelled,
    Finished,
}

#[derive(Clone, Copy, Debug, PartialEq, Eq, Structural)]
pub struct MappingKeys {
    pub exit: Option<MappingExit>,
    pub record: bool,
    pub save: bool,
}

pub fn mapping_keys(escape: bool, f1: bool, f2: bool, f3: bool) -> (r: MappingKeys)
    ensures
        r.exit == (if escape {
            Some(MappingExit::Cancelled)
        } else if f1 {
            Some(MappingExit::Finished)
        } else {
            None
        }),
        r.record == (!escape && !f1 && f2),
        r.save == (!escape && !f1 && f3),
{
    if escape {
        MappingKeys { exit: Some(MappingExit::Cancelled), record: false, save: false }
    } else if f1 {
        MappingKeys { exit: Some(MappingExit::Finished), record: false, save: false }
    } else {
        MappingKeys { exit: None, record: f2, save: f3 }
    }
}

/// The mappings recorded in one mapping session and not yet saved.
pub struct MappingSession {
    pub pending: CoordMap,
}

impl MappingSession {
    pub fn new() -> (r: MappingSession)
        ensures
            r.pending.wf(),
            r.pending@ == Map::<Seq<char>, Coord>::empty(),
    {
        MappingSession { pending: CoordMap::new() }
    }

    /// Records the position under the typed name, trimmed; an empty name
    /// records nothing. Returns whether something was recorded.
    pub fn record(&mut self, typed_name: &str, at: Coord) -> (r: bool)
        requires
            old(self).pending.wf(),
        ensures
            final(self).pending.wf(),
            r == (trimmed(typed_name@).len() > 0),
            final(self).pending@ == (if r {
                old(self).pending@.insert(trimmed(typed_name@), at)
            } else {
                old(self).pending@
            }),
    {
        let name = trim(typed_name);
        if name.unicode_len() == 0 {
            return false;
        }
        self.pending.insert(String::from_str(name), at);
        true
    }

    /// Moves the pending mappings into `target` (they win over what is
    /// there) and empties the session. Returns how many were moved.
    pub fn commit(&mut self, target: &mut CoordMap) -> (r: usize)
        requires
            old(self).pending.wf(),
            old(target).wf(),
        ensures
            final(self).pending.wf(),
            final(self).pending@ == Map::<Seq<char>, Coord>::empty(),
            final(target).wf(),
            final(target)@ == old(target)@.union_prefer_right(old(self).pending@),
            r as nat == old(self).pending@.dom().len(),
    {
        let n = self.pending.len();
        target.merge_from(&self.pending);
        self.pending.clear();
        n
    }
}

/// A position read back after it was stored under a name is the stored
/// one: `get` after `insert`.
pub proof fn law_get_after_insert(before: CoordMap, after: CoordMap, name: Seq<char>, c: Coord)
    requires
        after@ == before@.insert(name, c),
    ensures
        after@.contains_key(name),
        after@[name] == c,
        forall|other: Seq<char>| other != name ==> #[trigger] after@.contains_key(other)
            == before@.contains_key(other) && (before@.contains_key(other) ==> after@[other]
            == before@[other]),
{
}

/// Importing with merge keeps every mapping the file does not name and
/// takes the file's position for every name it does; importing without
/// merge keeps exactly the file's mappings.
pub proof fn law_import(old_map: Map<Seq<char>, Coord>, imported: Map<Seq<char>, Coord>, merge: bool)
    ensures
        ({
            let r = if merge {
                old_map.union_prefer_right(imported)
            } else {
                imported
            };
            &&& forall|k: Seq<char>| #[trigger] imported.contains_key(k) ==> r.contains_key(k)
                && r[k] == imported[k]
            &&& merge ==> forall|k: Seq<char>|
                #[trigger] old_map.contains_key(k) && !imported.contains_key(k) ==> r.contains_key(k)
                    && r[k] == old_map[k]
            &&& !merge ==> r == imported
        }),
{
}

/// Importing the map that is already there (as an export of it gives
/// back), merged or not, leaves the coordinates as they were.
pub proof fn law_reimport_keeps_coordinates(current: Map<Seq<char>, Coord>, merge: bool)
    ensures
        (if merge {
            current.union_prefer_right(current)
        } else {
            current
        }) == current,
{
    assert(current.union_prefer_right(current) =~= current);
}

/// A name recorded in a mapping session and then saved is in the saved
/// map, at the recorded position.
pub proof fn law_recorded_mapping_is_saved(
    pending: Map<Seq<char>, Coord>,
    target: Map<Seq<char>, Coord>,
    typed: Seq<char>,
    at: Coord,
)
    requires
        trimmed(typed).len() > 0,
    ensures
        target.union_prefer_right(pending.insert(trimmed(typed), at)).contains_key(trimmed(typed)),
        target.union_prefer_right(pending.insert(trimmed(typed), at))[trimmed(typed)] == at,
{
}

} // verus!
