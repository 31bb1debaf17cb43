//! The medium that objects are kept on, seen as a table from object names to
//! their bytes and the instant of their last access, and a table in memory
//! that behaves so.

use vstd::prelude::*;
use vstd::slice::slice_to_vec;

verus! {

/// What a look at one object of the medium found.
#[derive(Clone, Copy, Debug, PartialEq, Eq, Structural)]
pub enum Probe {
    /// No such object.
    Missing,
    /// The object is there, but the medium keeps no time of last access.
    NoAccessTime,
    /// The last access lies after the present instant.
    ClockBehind,
    /// The object was last accessed this many nanoseconds ago.
    Idle(u128),
}

/// One object of a listing of the medium: its name, and what a look at it
/// found.
#[derive(Debug)]
pub struct Listed {
    /// The name of the object.
    pub name: String,
    /// What a look at the object found.
    pub probe: Probe,
}

/// A stored object as the contracts see it: its bytes, and the instant of its
/// last access in nanoseconds.
pub struct Object {
    /// The bytes of the object.
    pub data: Seq<u8>,
    /// The instant of the last access, in nanoseconds.
    pub accessed: u128,
}

/// What a look at the object `name` finds at the instant `now`.
pub open spec fn probe_at(table: Map<Seq<char>, Object>, name: Seq<char>, now: u128) -> Probe {
    if !table.contains_key(name) {
        Probe::Missing
    } else if now < table[name].accessed {
        Probe::ClockBehind
    } else {
        Probe::Idle((now - table[name].accessed) as u128)
    }
}

/// A listing names every object of the table once, each with what a look at
/// it finds at the instant `now`.
pub open spec fn lists(listing: Seq<Listed>, table: Map<Seq<char>, Object>, now: u128) -> bool {
    &&& forall|i: int, j: int|
        0 <= i < j < listing.len() ==> listing[i].name@ != listing[j].name@
    &&& forall|i: int|
        0 <= i < listing.len() ==> table.contains_key(#[trigger] listing[i].name@)
            && listing[i].probe == probe_at(table, listing[i].name@, now)
    &&& forall|name: Seq<char>| #[trigger]
        table.contains_key(name) ==> exists|i: int|
            0 <= i < listing.len() && #[trigger] listing[i].name@ == name
}

struct Entry {
    name: String,
    data: Vec<u8>,
    accessed: u128,
}

impl Entry {
    spec fn object(self) -> Object {
        Object { data: self.data@, accessed: self.accessed }
    }
}

spec fn distinct(entries: Seq<Entry>) -> bool {
    forall|i: int, j: int| 0 <= i < j < entries.len() ==> entries[i].name@ != entries[j].name@
}

spec fn holds(entries: Seq<Entry>, name: Seq<char>, i: int) -> bool {
    0 <= i < entries.len() && entries[i].name@ == name
}

spec fn image(entries: Seq<Entry>) -> Map<Seq<char>, Object> {
    Map::new(
        |name: Seq<char>| exists|i: int| holds(entries, name, i),
        |name: Seq<char>| entries[choose|i: int| holds(entries, name, i)].object(),
    )
}

proof fn lemma_image_at(entries: Seq<Entry>, i: int)
    requires
        distinct(entries),
        0 <= i < entries.len(),
    ensures
        image(entries).contains_key(entries[i].name@),
        image(entries)[entries[i].name@] == entries[i].object(),
{
    assert(holds(entries, entries[i].name@, i));
    let j = choose|j: int| holds(entries, entries[i].name@, j);
    assert(j == i);
}

proof fn lemma_image_push(entries: Seq<Entry>, entry: Entry)
    requires
        distinct(entries),
        forall|i: int| 0 <= i < entries.len() ==> entries[i].name@ != entry.name@,
    ensures
        distinct(entries.push(entry)),
        image(entries.push(entry)) == image(entries).insert(entry.name@, entry.object()),
{
    let grown = entries.push(entry);
    assert(distinct(grown));
    assert forall|name: Seq<char>| image(grown).contains_key(name) <==> (image(
        entries,
    ).contains_key(name) || name == entry.name@) by {
        if image(grown).contains_key(name) {
            let i = choose|i: int| holds(grown, name, i);
            if i < entries.len() {
                assert(holds(entries, name, i));
            }
        }
        if image(entries).contains_key(name) {
            let i = choose|i: int| holds(entries, name, i);
            assert(holds(grown, name, i));
        }
        if name == entry.name@ {
            assert(holds(grown, name, entries.len() as int));
        }
    }
    assert forall|name: Seq<char>| image(grown).contains_key(name) implies image(grown)[name]
        == image(entries).insert(entry.name@, entry.object())[name] by {
        let i = choose|i: int| holds(grown, name, i);
        if i < entries.len() {
            lemma_image_at(entries, i);
        }
    }
    assert(image(grown) =~= image(entries).insert(entry.name@, entry.object()));
}

proof fn lemma_image_remove(entries: Seq<Entry>, i: int)
    requires
        distinct(entries),
        0 <= i < entries.len(),
    ensures
        distinct(entries.remove(i)),
        image(entries.remove(i)) == image(entries).remove(entries[i].name@),
        forall|j: int|
            0 <= j < entries.remove(i).len() ==> entries.remove(i)[j].name@ != entries[i].name@,
{
    let rest = entries.remove(i);
    let name = entries[i].name@;
    assert forall|j: int| 0 <= j < rest.len() implies rest[j].name@ != name by {
        if j < i {
            assert(rest[j] == entries[j]);
        } else {
            assert(rest[j] == entries[j + 1]);
        }
    }
    assert(distinct(rest)) by {
        assert forall|a: int, b: int| 0 <= a < b < rest.len() implies rest[a].name@
            != rest[b].name@ by {
            let a0 = if a < i { a } else { a + 1 };
            let b0 = if b < i { b } else { b + 1 };
            assert(rest[a] == entries[a0]);
            assert(rest[b] == entries[b0]);
        }
    }
    assert forall|other: Seq<char>| image(rest).contains_key(other) <==> (image(
        entries,
    ).contains_key(other) && other != name) by {
        if image(rest).contains_key(other) {
            let j = choose|j: int| holds(rest, other, j);
            let j0 = if j < i { j } else { j + 1 };
            assert(rest[j] == entries[j0]);
            assert(holds(entries, other, j0));
        }
        if image(entries).contains_key(other) && other != name {
            let j0 = choose|j: int| holds(entries, other, j);
            let j = if j0 < i { j0 } else { j0 - 1 };
            assert(rest[j] == entries[j0]);
            assert(holds(rest, other, j));
        }
    }
    assert forall|other: Seq<char>| image(rest).contains_key(other) implies image(rest)[other]
        == image(entries)[other] by {
        let j = choose|j: int| holds(rest, other, j);
        let j0 = if j < i { j } else { j + 1 };
        assert(rest[j] == entries[j0]);
        lemma_image_at(entries, j0);
    }
    assert(image(rest) =~= image(entries).remove(name));
}

/// A medium in memory: a table of objects, each under its own name.
pub struct Shelf {
    entries: Vec<Entry>,
}

impl View for Shelf {
    type V = Map<Seq<char>, Object>;

    closed spec fn view(&self) -> Map<Seq<char>, Object> {
        image(self.entries@)
    }
}

impl Shelf {
    /// No two objects of the table share a name.
    pub closed spec fn wf(&self) -> bool {
        distinct(self.entries@)
    }

    /// A medium that holds nothing.
    pub fn new() -> (shelf: Shelf)
        ensures
            shelf.wf(),
            shelf@ == Map::<Seq<char>, Object>::empty(),
    {
        let shelf = Shelf { entries: Vec::new() };
        assert(shelf@ =~= Map::<Seq<char>, Object>::empty());
        shelf
    }

    fn find(&self, name: &str) -> (at: Option<usize>)
        ensures
            match at {
                Some(i) => holds(self.entries@, name@, i as int),
                None => forall|i: int| 0 <= i < self.entries@.len() ==> self.entries@[i].name@ != name@,
            },
    {
        let wanted: String = name.to_owned();
        let mut i: usize = 0;
        while i < self.entries.len()
            invariant
                i <= self.entries.len(),
                wanted@ == name@,
                forall|k: int| 0 <= k < i ==> self.entries@[k].name@ != name@,
            decreases self.entries.len() - i,
        {
            if self.entries[i].name == wanted {
                return Some(i);
            }
            i += 1;
        }
        None
    }

    /// How many objects the medium holds.
    pub fn len(&self) -> (n: usize)
        requires
            self.wf(),
        ensures
            n == self@.dom().len(),
            self@.dom().finite(),
    {
        proof {
            lemma_image_size(self.entries@);
        }
        self.entries.len()
    }

    /// Looks at the object `name` at the instant `now`.
    pub fn probe(&self, name: &str, now: u128) -> (probe: Probe)
        requires
            self.wf(),
        ensures
            probe == probe_at(self@, name@, now),
    {
        match self.find(name) {
            None => Probe::Missing,
            Some(i) => {
                proof {
                    lemma_image_at(self.entries@, i as int);
                }
                let accessed: u128 = self.entries[i].accessed;
                if now < accessed {
                    Probe::ClockBehind
                } else {
                    Probe::Idle(now - accessed)
                }
            },
        }
    }

    /// The bytes of the object `name`, if it is there. The last access stays as
    /// it is.
    pub fn read(&self, name: &str) -> (data: Option<Vec<u8>>)
        requires
            self.wf(),
        ensures
            match data {
                Some(bytes) => self@.contains_key(name@) && bytes@ == self@[name@].data,
                None => !self@.contains_key(name@),
            },
    {
        match self.find(name) {
            None => None,
            Some(i) => {
                proof {
                    lemma_image_at(self.entries@, i as int);
                }
                Some(slice_to_vec(self.entries[i].data.as_slice()))
            },
        }
    }

    /// Removes the object `name`, and says whether it was there.
    pub fn remove(&mut self, name: &str) -> (was_there: bool)
        requires
            old(self).wf(),
        ensures
            final(self).wf(),
            was_there == old(self)@.contains_key(name@),
            final(self)@ == old(self)@.remove(name@),
    {
        match self.find(name) {
            None => {
                assert(self@ =~= self@.remove(name@));
                false
            },
            Some(i) => {
                proof {
                    lemma_image_at(self.entries@, i as int);
                    lemma_image_remove(self.entries@, i as int);
                }
                let _ = self.entries.remove(i);
                true
            },
        }
    }

    /// Stores `data` as the object `name`, in place of what was there, with
    /// `now` as the instant of its last access.
    pub fn write(&mut self, name: &str, data: &[u8], now: u128)
        requires
            old(self).wf(),
        ensures
            final(self).wf(),
            final(self)@ == old(self)@.insert(name@, (Object { data: data@, accessed: now })),
    {
        match self.find(name) {
            None => {},
            Some(i) => {
                proof {
                    lemma_image_remove(self.entries@, i as int);
                }
                let _ = self.entries.remove(i);
            },
        }
        let entry = Entry { name: name.to_owned(), data: slice_to_vec(data), accessed: now };
        proof {
            lemma_image_push(self.entries@, entry);
            assert(old(self)@.remove(name@).insert(name@, entry.object()) =~= old(self)@.insert(
                name@,
                entry.object(),
            ));
        }
        self.entries.push(entry);
    }

    /// Sets the last access of the object `name` to the instant `now`, and
    /// says whether the object was there.
    pub fn touch(&mut self, name: &str, now: u128) -> (was_there: bool)
        requires
            old(self).wf(),
        ensures
            final(self).wf(),
            was_there == old(self)@.contains_key(name@),
            was_there ==> final(self)@ == old(self)@.insert(
                name@,
                (Object { data: old(self)@[name@].data, accessed: now }),
            ),
            !was_there ==> final(self)@ == old(self)@,
    {
        match self.find(name) {
            None => false,
            Some(i) => {
                proof {
                    lemma_image_at(self.entries@, i as int);
                    lemma_image_remove(self.entries@, i as int);
                }
                let taken = self.entries.remove(i);
                let entry = Entry { name: taken.name, data: taken.data, accessed: now };
                proof {
                    lemma_image_push(self.entries@, entry);
                    assert(old(self)@.remove(name@).insert(name@, entry.object()) =~= old(
                        self,
                    )@.insert(name@, entry.object()));
                }
                self.entries.push(entry);
                true
            },
        }
    }

    /// Lists the objects, each with what a look at it finds at the instant
    /// `now`.
    pub fn listing(&self, now: u128) -> (listing: Vec<Listed>)
        requires
            self.wf(),
        ensures
            lists(listing@, self@, now),
    {
        let mut listing: Vec<Listed> = Vec::new();
        let mut i: usize = 0;
        while i < self.entries.len()
            invariant
                i <= self.entries.len(),
                distinct(self.entries@),
                listing@.len() == i,
                forall|k: int|
                    0 <= k < i ==> (#[trigger] listing@[k]).name@ == self.entries@[k].name@
                        && listing@[k].probe == probe_at(self@, self.entries@[k].name@, now),
            decreases self.entries.len() - i,
        {
            proof {
                lemma_image_at(self.entries@, i as int);
            }
            let accessed: u128 = self.entries[i].accessed;
            let probe = if now < accessed {
                Probe::ClockBehind
            } else {
                Probe::Idle(now - accessed)
            };
            listing.push(Listed { name: self.entries[i].name.clone(), probe });
            i += 1;
        }
        proof {
            assert forall|k: int| 0 <= k < listing@.len() implies self@.contains_key(
                #[trigger] listing@[k].name@,
            ) && listing@[k].probe == probe_at(self@, listing@[k].name@, now) by {
                lemma_image_at(self.entries@, k);
            }
            assert forall|name: Seq<char>| #[trigger] self@.contains_key(name) implies exists|
                k: int,
            |
                0 <= k < listing@.len() && #[trigger] listing@[k].name@ == name by {
                let k = choose|k: int| holds(self.entries@, name, k);
                assert(listing@[k].name@ == name);
            }
        }
        listing
    }
}

proof fn lemma_image_size(entries: Seq<Entry>)
    requires
        distinct(entries),
    ensures
        image(entries).dom().finite(),
        image(entries).dom().len() == entries.len(),
    decreases entries.len(),
{
    if entries.len() == 0 {
        assert(image(entries).dom() =~= Set::<Seq<char>>::empty());
    } else {
        let last = entries.len() - 1;
        lemma_image_at(entries, last);
        lemma_image_remove(entries, last);
        lemma_image_size(entries.remove(last));
        assert(image(entries).dom() =~= image(entries.remove(last)).dom().insert(
            entries[last].name@,
        ));
    }
}

} // verus!
