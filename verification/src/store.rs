//! The content store: the expiry rule, what each operation does to the table
//! of objects, and the operations themselves on a medium in memory.

use crate::identity::{
    identity_of, is_object_name, is_version_five, key_to_identity, law_version_five_names_objects,
    object_name,
};
use crate::medium::{lists, probe_at, Listed, Object, Probe, Shelf};
use vstd::prelude::*;
use vstd::utf8::encode_utf8;

verus! {

/// Nanoseconds in one second.
pub const NANOS_PER_SECOND: u128 = 1_000_000_000;

/// Why an operation of the store failed.
#[derive(Clone, Copy, Debug, PartialEq, Eq, Structural)]
pub enum StoreError {
    /// No such object: it was never stored, was deleted, or has expired.
    NotFound,
    /// The medium failed.
    Io,
}

/// What a read of one object has to do.
#[derive(Clone, Copy, Debug, PartialEq, Eq, Structural)]
pub enum OpenPlan {
    /// Nothing is stored: report that the object was not found.
    Absent,
    /// The object has expired: remove it, and report that it was not found.
    Purge,
    /// The object is live: set its last access to the present instant, then
    /// hand out its bytes.
    Serve,
}

/// How the removal of one object of a sweep ended.
#[derive(Clone, Copy, Debug, PartialEq, Eq, Structural)]
pub enum Removal {
    /// The object was removed.
    Removed,
    /// The object was no longer there: something else had removed it.
    Gone,
    /// The medium failed.
    Failed,
}

/// The nanoseconds that a text such as `1d` or `2h 30m` stands for, where it
/// is the text of a duration.
pub uninterp spec fn duration_nanos(text: Seq<char>) -> Option<u128>;

/// The most digits that the text of a time to live may hold.
pub const MAX_TTL_DIGITS: usize = 11;

/// Whether a byte of a text is one of the digits `0` to `9`.
pub open spec fn is_digit(byte: u8) -> bool {
    0x30 <= byte <= 0x39
}

/// How many of the bytes of a text are digits. A digit is one byte of the
/// text, and no other character holds such a byte.
pub open spec fn digits_in(bytes: Seq<u8>) -> nat {
    bytes.filter(|byte: u8| is_digit(byte)).len()
}

/// Calls `humantime::parse_duration` and takes the duration in nanoseconds
/// with `Duration::as_nanos`; an error of the parser becomes `None`. The
/// grammar of durations is the parser's, so the contract only gives the
/// outcome a name.
///
/// The parser adds up whole seconds with checks, but panics where it has to
/// carry one second more into a sum that stands at `u64::MAX`. Every run of
/// `d` digits in the text, before or after a decimal point, adds less than
/// `10^d` years of 31 557 600 seconds to the sum, so a text with no more than
/// eleven digits in all stays below `4 * 10^18` seconds and cannot get
/// there. Texts with more digits are left out.
#[verifier::external_body]
fn parse_duration(text: &str) -> (nanos: Option<u128>)
    requires
        digits_in(encode_utf8(text@)) <= MAX_TTL_DIGITS,
    ensures
        nanos == duration_nanos(text@),
{
    humantime::parse_duration(text).ok().map(|duration| duration.as_nanos())
}

/// Counts the digits among the bytes of a text.
pub fn count_digits(text: &str) -> (count: usize)
    ensures
        count == digits_in(encode_utf8(text@)),
{
    let bytes = text.as_bytes();
    let ghost digit = |byte: u8| is_digit(byte);
    let mut count: usize = 0;
    let mut i: usize = 0;
    proof {
        reveal(Seq::filter);
        assert(bytes@.take(0).filter(digit) =~= Seq::<u8>::empty());
    }
    while i < bytes.len()
        invariant
            i <= bytes.len(),
            bytes@ == encode_utf8(text@),
            digit == (|byte: u8| is_digit(byte)),
            count == bytes@.take(i as int).filter(digit).len(),
            count <= i,
        decreases bytes.len() - i,
    {
        proof {
            reveal(Seq::filter);
            assert(bytes@.take(i as int + 1).drop_last() =~= bytes@.take(i as int));
            assert(bytes@.take(i as int + 1).last() == bytes@[i as int]);
        }
        if 0x30 <= bytes[i] && bytes[i] <= 0x39 {
            count += 1;
        }
        i += 1;
    }
    proof {
        assert(bytes@.take(bytes.len() as int) =~= bytes@);
    }
    count
}

/// The time to live that a text stands for: none where the text holds more
/// than `MAX_TTL_DIGITS` digits, else what the text stands for as a duration.
pub open spec fn ttl_of(text: Seq<char>) -> Option<u128> {
    if digits_in(encode_utf8(text)) > MAX_TTL_DIGITS {
        None
    } else {
        duration_nanos(text)
    }
}

/// An object is live while it has been idle for no longer than the time to
/// live, in nanoseconds; whatever else a look finds counts as expired.
pub open spec fn expired(ttl: u128, probe: Probe) -> bool {
    !(probe matches Probe::Idle(idle) && idle <= ttl)
}

/// What a read does, by what a look at the object found.
pub open spec fn open_plan(ttl: u128, probe: Probe) -> OpenPlan {
    if probe == Probe::Missing {
        OpenPlan::Absent
    } else if expired(ttl, probe) {
        OpenPlan::Purge
    } else {
        OpenPlan::Serve
    }
}

/// Whether a sweep removes a listed object: it is there, and has expired.
pub open spec fn doomed(ttl: u128, listed: Listed) -> bool {
    open_plan(ttl, listed.probe) == OpenPlan::Purge
}

/// The names that a sweep removes: those of the doomed objects, in the order
/// of the listing.
pub open spec fn sweep_plan(ttl: u128, listing: Seq<Listed>) -> Seq<Seq<char>> {
    listing.filter(|listed: Listed| doomed(ttl, listed)).map_values(|listed: Listed| listed.name@)
}

/// The texts of a sequence of strings.
pub open spec fn texts(names: Seq<String>) -> Seq<Seq<char>> {
    names.map_values(|name: String| name@)
}

/// The table after `data` was saved under `name` at the instant `now`.
pub open spec fn saved(
    table: Map<Seq<char>, Object>,
    name: Seq<char>,
    data: Seq<u8>,
    now: u128,
) -> Map<Seq<char>, Object> {
    table.insert(name, Object { data, accessed: now })
}

/// What a read of `name` at the instant `now` returns.
pub open spec fn open_outcome(
    ttl: u128,
    table: Map<Seq<char>, Object>,
    name: Seq<char>,
    now: u128,
) -> Result<Seq<u8>, StoreError> {
    match open_plan(ttl, probe_at(table, name, now)) {
        OpenPlan::Serve => Ok(table[name].data),
        _ => Err(StoreError::NotFound),
    }
}

/// The table after a read of `name` at the instant `now`: an expired object
/// is gone, a live one has `now` as its last access.
pub open spec fn opened(
    ttl: u128,
    table: Map<Seq<char>, Object>,
    name: Seq<char>,
    now: u128,
) -> Map<Seq<char>, Object> {
    match open_plan(ttl, probe_at(table, name, now)) {
        OpenPlan::Absent => table,
        OpenPlan::Purge => table.remove(name),
        OpenPlan::Serve => table.insert(name, Object { data: table[name].data, accessed: now }),
    }
}

/// The table after `name` was deleted.
pub open spec fn deleted(table: Map<Seq<char>, Object>, name: Seq<char>) -> Map<
    Seq<char>,
    Object,
> {
    table.remove(name)
}

/// What deleting `name` returns.
pub open spec fn delete_outcome(table: Map<Seq<char>, Object>, name: Seq<char>) -> Result<
    (),
    StoreError,
> {
    if table.contains_key(name) {
        Ok(())
    } else {
        Err(StoreError::NotFound)
    }
}

/// The names of the objects that have expired at the instant `now`.
pub open spec fn expired_names(ttl: u128, table: Map<Seq<char>, Object>, now: u128) -> Set<
    Seq<char>,
> {
    Set::new(|name: Seq<char>| table.contains_key(name) && expired(ttl, probe_at(table, name, now)))
}

/// The table after a sweep at the instant `now`: the expired objects are
/// gone, the others are as they were.
pub open spec fn pruned(ttl: u128, table: Map<Seq<char>, Object>, now: u128) -> Map<
    Seq<char>,
    Object,
> {
    table.remove_keys(expired_names(ttl, table, now))
}

/// How many of the removals removed an object.
pub open spec fn removed_count(removals: Seq<Removal>) -> nat {
    removals.filter(|removal: Removal| removal == Removal::Removed).len()
}

/// What a sweep returns, by how its removals ended: the number of objects
/// that it removed, or an error where the medium failed. An object that was
/// gone already is no error, and is not counted.
pub open spec fn sweep_outcome(removals: Seq<Removal>) -> Result<usize, StoreError> {
    if removals.contains(Removal::Failed) {
        Err(StoreError::Io)
    } else {
        Ok(removed_count(removals) as usize)
    }
}

/// Where every removal removed an object, the count is their number.
pub proof fn lemma_all_removed(removals: Seq<Removal>)
    requires
        forall|i: int| 0 <= i < removals.len() ==> removals[i] == Removal::Removed,
    ensures
        removed_count(removals) == removals.len(),
        !removals.contains(Removal::Failed),
    decreases removals.len(),
{
    reveal(Seq::filter);
    if removals.len() > 0 {
        lemma_all_removed(removals.drop_last());
    }
}

/// The sweep plan of a listing with distinct names holds no name twice, and
/// holds exactly the names of the listed objects that are doomed.
pub proof fn lemma_sweep_plan_members(ttl: u128, listing: Seq<Listed>)
    requires
        forall|i: int, j: int| 0 <= i < j < listing.len() ==> listing[i].name@ != listing[j].name@,
    ensures
        sweep_plan(ttl, listing).no_duplicates(),
        forall|name: Seq<char>|
            sweep_plan(ttl, listing).contains(name) <==> exists|i: int|
                0 <= i < listing.len() && #[trigger] listing[i].name@ == name && doomed(
                    ttl,
                    listing[i],
                ),
    decreases listing.len(),
{
    reveal(Seq::filter);
    let plan = sweep_plan(ttl, listing);
    if listing.len() == 0 {
        assert(plan =~= Seq::<Seq<char>>::empty());
    } else {
        let front = listing.drop_last();
        let last = listing.last();
        let rest = sweep_plan(ttl, front);
        lemma_sweep_plan_members(ttl, front);
        assert forall|i: int| 0 <= i < front.len() implies front[i] == listing[i] by {}
        if doomed(ttl, last) {
            assert(plan =~= rest.push(last.name@));
            assert(!rest.contains(last.name@)) by {
                if rest.contains(last.name@) {
                    let i = choose|i: int|
                        0 <= i < front.len() && #[trigger] front[i].name@ == last.name@ && doomed(
                            ttl,
                            front[i],
                        );
                    assert(listing[i].name@ != listing[listing.len() - 1].name@);
                }
            }
            assert(plan.no_duplicates()) by {
                assert forall|a: int, b: int| 0 <= a < plan.len() && 0 <= b < plan.len() && a
                    != b implies plan[a] != plan[b] by {
                    if a < rest.len() && b < rest.len() {
                        assert(plan[a] == rest[a] && plan[b] == rest[b]);
                    } else if a < rest.len() {
                        assert(rest.contains(rest[a]));
                    } else {
                        assert(rest.contains(rest[b]));
                    }
                }
            }
        } else {
            assert(plan =~= rest);
        }
        assert forall|name: Seq<char>| plan.contains(name) <==> exists|i: int|
            0 <= i < listing.len() && #[trigger] listing[i].name@ == name && doomed(
                ttl,
                listing[i],
            ) by {
            if plan.contains(name) {
                if rest.contains(name) {
                    let i = choose|i: int|
                        0 <= i < front.len() && #[trigger] front[i].name@ == name && doomed(
                            ttl,
                            front[i],
                        );
                    assert(listing[i].name@ == name && doomed(ttl, listing[i]));
                } else {
                    let k = choose|k: int| 0 <= k < plan.len() && plan[k] == name;
                    if k < rest.len() {
                        assert(rest[k] == name);
                    }
                    assert(listing[listing.len() - 1].name@ == name);
                }
            }
            if exists|i: int|
                0 <= i < listing.len() && #[trigger] listing[i].name@ == name && doomed(
                    ttl,
                    listing[i],
                ) {
                let i = choose|i: int|
                    0 <= i < listing.len() && #[trigger] listing[i].name@ == name && doomed(
                        ttl,
                        listing[i],
                    );
                if i < front.len() {
                    assert(front[i].name@ == name && doomed(ttl, front[i]));
                    assert(rest.contains(name));
                    let k = choose|k: int| 0 <= k < rest.len() && rest[k] == name;
                    assert(plan[k] == name);
                } else {
                    assert(plan[plan.len() - 1] == name);
                }
            }
        }
    }
}

/// The sweep plan of a listing of the table holds each expired name once,
/// and no other.
pub proof fn lemma_sweep_plan_expired(
    ttl: u128,
    listing: Seq<Listed>,
    table: Map<Seq<char>, Object>,
    now: u128,
)
    requires
        lists(listing, table, now),
    ensures
        sweep_plan(ttl, listing).no_duplicates(),
        sweep_plan(ttl, listing).to_set() == expired_names(ttl, table, now),
        sweep_plan(ttl, listing).len() == expired_names(ttl, table, now).len(),
{
    let plan = sweep_plan(ttl, listing);
    lemma_sweep_plan_members(ttl, listing);
    assert forall|name: Seq<char>| plan.to_set().contains(name) <==> expired_names(
        ttl,
        table,
        now,
    ).contains(name) by {
        if plan.contains(name) {
            let i = choose|i: int|
                0 <= i < listing.len() && #[trigger] listing[i].name@ == name && doomed(
                    ttl,
                    listing[i],
                );
            assert(table.contains_key(listing[i].name@));
        }
        if expired_names(ttl, table, now).contains(name) {
            assert(table.contains_key(name));
            let i = choose|i: int| 0 <= i < listing.len() && #[trigger] listing[i].name@ == name;
            assert(table.contains_key(listing[i].name@));
            assert(doomed(ttl, listing[i]));
        }
    }
    assert(plan.to_set() =~= expired_names(ttl, table, now));
    plan.unique_seq_to_set();
}

/// Sums up a sweep from how its removals ended.
pub fn tally(removals: &Vec<Removal>) -> (outcome: Result<usize, StoreError>)
    ensures
        outcome == sweep_outcome(removals@),
{
    let ghost removed = |removal: Removal| removal == Removal::Removed;
    let mut count: usize = 0;
    let mut i: usize = 0;
    proof {
        reveal(Seq::filter);
        assert(removals@.take(0).filter(removed) =~= Seq::<Removal>::empty());
    }
    while i < removals.len()
        invariant
            i <= removals.len(),
            removed == (|removal: Removal| removal == Removal::Removed),
            count == removals@.take(i as int).filter(removed).len(),
            count <= i,
            forall|k: int| 0 <= k < i ==> removals@[k] != Removal::Failed,
        decreases removals.len() - i,
    {
        proof {
            reveal(Seq::filter);
            assert(removals@.take(i as int + 1).drop_last() =~= removals@.take(i as int));
            assert(removals@.take(i as int + 1).last() == removals@[i as int]);
        }
        match removals[i] {
            Removal::Removed => {
                count += 1;
            },
            Removal::Gone => {},
            Removal::Failed => {
                assert(removals@.contains(removals@[i as int]));
                return Err(StoreError::Io);
            },
        }
        i += 1;
    }
    proof {
        assert(removals@.take(removals.len() as int) =~= removals@);
    }
    Ok(count)
}

/// The settings of a store: how long an object may stay idle, and where the
/// objects are kept.
#[derive(Debug)]
pub struct Store {
    /// The time to live, in nanoseconds: an object that has not been accessed
    /// for longer has expired.
    pub ttl: u128,
    /// The location of the storage root.
    pub path: String,
}

impl Clone for Store {
    fn clone(&self) -> (copy: Store)
        ensures
            copy == *self,
    {
        Store { ttl: self.ttl, path: self.path.clone() }
    }
}

impl Store {
    /// A store rooted at `path` whose objects live for `ttl` nanoseconds after
    /// their last access.
    pub fn new(path: &str, ttl: u128) -> (store: Result<Store, StoreError>)
        ensures
            store matches Ok(s) && s.ttl == ttl && s.path@ == path@,
    {
        Ok(Store { ttl, path: path.to_owned() })
    }

    /// A store rooted at `path` whose time to live is given as a text such as
    /// `1d` or `2h 30m`. There is none where the text is not that of a
    /// duration, or holds more than `MAX_TTL_DIGITS` digits.
    pub fn with_ttl(path: &str, ttl: &str) -> (store: Option<Store>)
        ensures
            match ttl_of(ttl@) {
                Some(nanos) => store matches Some(s) && s.ttl == nanos && s.path@ == path@,
                None => store is None,
            },
    {
        if count_digits(ttl) > MAX_TTL_DIGITS {
            return None;
        }
        match parse_duration(ttl) {
            Some(nanos) => Store::new(path, nanos).ok(),
            None => None,
        }
    }

    /// The path of the object of `key`, relative to the storage root: the
    /// hyphenated lower-case text of the key's identity.
    pub fn key_to_path(&self, key: &str) -> (name: String)
        ensures
            name@ == object_name(key@),
            is_version_five(identity_of(key@)),
            is_object_name(name@),
    {
        let id = key_to_identity(key);
        proof {
            law_version_five_names_objects(id@);
        }
        id.hyphenated()
    }

    /// Whether a look at an object shows it expired.
    pub fn is_expired(&self, probe: &Probe) -> (gone: bool)
        ensures
            gone == expired(self.ttl, *probe),
    {
        match probe {
            Probe::Idle(idle) => *idle > self.ttl,
            _ => true,
        }
    }

    /// Decides what a read of an object does, by what a look at it found.
    pub fn plan_open(&self, probe: &Probe) -> (plan: OpenPlan)
        ensures
            plan == open_plan(self.ttl, *probe),
    {
        match probe {
            Probe::Missing => OpenPlan::Absent,
            _ => if self.is_expired(probe) {
                OpenPlan::Purge
            } else {
                OpenPlan::Serve
            },
        }
    }

    /// Decides which objects of a listing a sweep removes.
    pub fn plan_sweep(&self, listing: &Vec<Listed>) -> (names: Vec<String>)
        ensures
            texts(names@) == sweep_plan(self.ttl, listing@),
    {
        let ghost ttl = self.ttl;
        let mut names: Vec<String> = Vec::new();
        let mut i: usize = 0;
        proof {
            reveal(Seq::filter);
            assert(listing@.take(0).filter(|listed: Listed| doomed(ttl, listed))
                =~= Seq::<Listed>::empty());
            assert(texts(names@) =~= sweep_plan(ttl, listing@.take(0)));
        }
        while i < listing.len()
            invariant
                i <= listing.len(),
                ttl == self.ttl,
                texts(names@) == sweep_plan(ttl, listing@.take(i as int)),
            decreases listing.len() - i,
        {
            let ghost before = listing@.take(i as int);
            proof {
                reveal(Seq::filter);
                assert(listing@.take(i as int + 1).drop_last() =~= before);
                assert(listing@.take(i as int + 1).last() == listing@[i as int]);
            }
            match self.plan_open(&listing[i].probe) {
                OpenPlan::Purge => {
                    names.push(listing[i].name.clone());
                    proof {
                        assert(texts(names@) =~= sweep_plan(ttl, before).push(
                            listing@[i as int].name@,
                        ));
                        assert(sweep_plan(ttl, listing@.take(i as int + 1)) =~= sweep_plan(
                            ttl,
                            before,
                        ).push(listing@[i as int].name@));
                    }
                },
                _ => {},
            }
            i += 1;
        }
        proof {
            assert(listing@.take(listing.len() as int) =~= listing@);
        }
        names
    }

    /// Stores `data` under `key` at the instant `now`, in place of whatever
    /// was stored under it.
    pub fn save(&self, shelf: &mut Shelf, now: u128, key: &str, data: &[u8]) -> (outcome: Result<
        (),
        StoreError,
    >)
        requires
            old(shelf).wf(),
        ensures
            final(shelf).wf(),
            outcome is Ok,
            final(shelf)@ == saved(old(shelf)@, object_name(key@), data@, now),
    {
        let name = self.key_to_path(key);
        shelf.write(name.as_str(), data, now);
        Ok(())
    }

    /// Reads the object of `key` at the instant `now`. A live object is handed
    /// out, and `now` becomes its last access; an expired one is removed and
    /// reported as not found, like one that was never stored.
    pub fn open(&self, shelf: &mut Shelf, now: u128, key: &str) -> (outcome: Result<
        Vec<u8>,
        StoreError,
    >)
        requires
            old(shelf).wf(),
        ensures
            final(shelf).wf(),
            final(shelf)@ == opened(self.ttl, old(shelf)@, object_name(key@), now),
            match outcome {
                Ok(data) => open_outcome(self.ttl, old(shelf)@, object_name(key@), now) == Ok::<
                    Seq<u8>,
                    StoreError,
                >(data@),
                Err(e) => open_outcome(self.ttl, old(shelf)@, object_name(key@), now) == Err::<
                    Seq<u8>,
                    StoreError,
                >(e),
            },
    {
        let name = self.key_to_path(key);
        let probe = shelf.probe(name.as_str(), now);
        match self.plan_open(&probe) {
            OpenPlan::Absent => Err(StoreError::NotFound),
            OpenPlan::Purge => {
                shelf.remove(name.as_str());
                Err(StoreError::NotFound)
            },
            OpenPlan::Serve => {
                shelf.touch(name.as_str(), now);
                match shelf.read(name.as_str()) {
                    Some(data) => Ok(data),
                    None => Err(StoreError::NotFound),
                }
            },
        }
    }

    /// Removes the object of `key`; one that is not there is reported as not
    /// found.
    pub fn delete(&self, shelf: &mut Shelf, key: &str) -> (outcome: Result<(), StoreError>)
        requires
            old(shelf).wf(),
        ensures
            final(shelf).wf(),
            outcome == delete_outcome(old(shelf)@, object_name(key@)),
            final(shelf)@ == deleted(old(shelf)@, object_name(key@)),
    {
        let name = self.key_to_path(key);
        if shelf.remove(name.as_str()) {
            Ok(())
        } else {
            Err(StoreError::NotFound)
        }
    }

    /// Sweeps the medium at the instant `now`: removes every expired object,
    /// and returns how many there were.
    pub fn prune(&self, shelf: &mut Shelf, now: u128) -> (outcome: Result<usize, StoreError>)
        requires
            old(shelf).wf(),
        ensures
            final(shelf).wf(),
            final(shelf)@ == pruned(self.ttl, old(shelf)@, now),
            outcome matches Ok(count) && count == expired_names(self.ttl, old(shelf)@, now).len(),
    {
        let ghost before = shelf@;
        let listing = shelf.listing(now);
        let names = self.plan_sweep(&listing);
        let ghost plan = texts(names@);
        proof {
            lemma_sweep_plan_expired(self.ttl, listing@, before, now);
            assert(before.remove_keys(plan.take(0).to_set()) =~= before);
        }
        let mut removals: Vec<Removal> = Vec::new();
        let mut i: usize = 0;
        while i < names.len()
            invariant
                i <= names.len(),
                shelf.wf(),
                plan == texts(names@),
                plan.no_duplicates(),
                plan.to_set() == expired_names(self.ttl, before, now),
                shelf@ == before.remove_keys(plan.take(i as int).to_set()),
                removals@.len() == i,
                forall|k: int| 0 <= k < i ==> removals@[k] == Removal::Removed,
            decreases names.len() - i,
        {
            proof {
                let name = plan[i as int];
                assert(plan.to_set().contains(name));
                assert(expired_names(self.ttl, before, now).contains(name));
                assert(!plan.take(i as int).to_set().contains(name)) by {
                    if plan.take(i as int).contains(name) {
                        let k = choose|k: int|
                            0 <= k < plan.take(i as int).len() && plan.take(i as int)[k] == name;
                        assert(plan[k] == plan[i as int]);
                    }
                }
            }
            if shelf.remove(names[i].as_str()) {
                removals.push(Removal::Removed);
            } else {
                removals.push(Removal::Gone);
            }
            proof {
                let done = plan.take(i as int);
                let more = plan.take(i as int + 1);
                let name = plan[i as int];
                assert(more =~= done.push(name));
                assert forall|other: Seq<char>| more.contains(other) <==> done.contains(other)
                    || other == name by {
                    if more.contains(other) {
                        let k = choose|k: int| 0 <= k < more.len() && more[k] == other;
                        if k < done.len() {
                            assert(done[k] == other);
                        }
                    }
                    if done.contains(other) {
                        let k = choose|k: int| 0 <= k < done.len() && done[k] == other;
                        assert(more[k] == other);
                    }
                    if other == name {
                        assert(more[i as int] == other);
                    }
                }
                assert(more.to_set() =~= done.to_set().insert(name));
                assert(before.remove_keys(more.to_set()) =~= before.remove_keys(
                    done.to_set(),
                ).remove(name));
            }
            i += 1;
        }
        proof {
            assert(plan.take(names.len() as int) =~= plan);
            lemma_all_removed(removals@);
        }
        tally(&removals)
    }
}

} // verus!
