//! What holds of the store whatever the keys, the bytes and the instants.

use crate::identity::object_name;
use crate::medium::{probe_at, Object, Probe};
use crate::store::{
    delete_outcome, deleted, expired, expired_names, open_outcome, open_plan, opened, pruned,
    saved, OpenPlan, StoreError,
};
use vstd::prelude::*;

verus! {

/// A read serves an object only while it is live: it is there, and has been
/// idle for no longer than the time to live.
pub proof fn law_only_live_objects_are_served(
    ttl: u128,
    table: Map<Seq<char>, Object>,
    key: Seq<char>,
    now: u128,
)
    ensures
        open_outcome(ttl, table, object_name(key), now) is Ok <==> table.contains_key(
            object_name(key),
        ) && table[object_name(key)].accessed <= now && now - table[object_name(key)].accessed
            <= ttl,
        open_outcome(ttl, table, object_name(key), now) matches Err(e) ==> e
            == StoreError::NotFound,
{
}

/// Round trip: what was saved under a key is what a read of that key at the
/// same instant returns.
pub proof fn law_round_trip(
    ttl: u128,
    table: Map<Seq<char>, Object>,
    key: Seq<char>,
    data: Seq<u8>,
    now: u128,
)
    ensures
        open_outcome(ttl, saved(table, object_name(key), data, now), object_name(key), now)
            == Ok::<Seq<u8>, StoreError>(data),
{
}

/// Refresh on read: a read within the time to live of the save succeeds and
/// starts the idle time anew, so that a second read within the time to live
/// of the first succeeds too, however long ago the object was saved.
pub proof fn law_refresh_on_read(
    ttl: u128,
    table: Map<Seq<char>, Object>,
    key: Seq<char>,
    data: Seq<u8>,
    saved_at: u128,
    first: u128,
    second: u128,
)
    requires
        saved_at <= first <= second,
        first - saved_at <= ttl,
        second - first <= ttl,
    ensures
        ({
            let name = object_name(key);
            let stored = saved(table, name, data, saved_at);
            let read_once = opened(ttl, stored, name, first);
            &&& open_outcome(ttl, stored, name, first) == Ok::<Seq<u8>, StoreError>(data)
            &&& read_once[name].accessed == first
            &&& open_outcome(ttl, read_once, name, second) == Ok::<Seq<u8>, StoreError>(data)
        }),
{
}

/// Expiry: a read later than the time to live after the save, with no access
/// in between, does not find the object, and removes it.
pub proof fn law_expiry(
    ttl: u128,
    table: Map<Seq<char>, Object>,
    key: Seq<char>,
    data: Seq<u8>,
    saved_at: u128,
    later: u128,
)
    requires
        saved_at <= later,
        later - saved_at > ttl,
    ensures
        ({
            let name = object_name(key);
            let stored = saved(table, name, data, saved_at);
            &&& open_outcome(ttl, stored, name, later) == Err::<Seq<u8>, StoreError>(
                StoreError::NotFound,
            )
            &&& !opened(ttl, stored, name, later).contains_key(name)
        }),
{
}

/// A read of one key leaves the objects of all other names as they are.
pub proof fn law_read_leaves_the_others(
    ttl: u128,
    table: Map<Seq<char>, Object>,
    key: Seq<char>,
    now: u128,
    other: Seq<char>,
)
    requires
        other != object_name(key),
    ensures
        opened(ttl, table, object_name(key), now).contains_key(other) == table.contains_key(other),
        table.contains_key(other) ==> opened(ttl, table, object_name(key), now)[other]
            == table[other],
{
}

/// A sweep removes the expired objects and no others, and leaves the live
/// ones as they are.
pub proof fn law_sweep_removes_exactly_the_expired(
    ttl: u128,
    table: Map<Seq<char>, Object>,
    now: u128,
    name: Seq<char>,
)
    ensures
        pruned(ttl, table, now).contains_key(name) <==> table.contains_key(name) && !expired(
            ttl,
            probe_at(table, name, now),
        ),
        pruned(ttl, table, now).contains_key(name) ==> pruned(ttl, table, now)[name]
            == table[name],
{
}

/// After a sweep, a second sweep at the same instant finds nothing to remove.
pub proof fn law_sweep_leaves_nothing_to_sweep(
    ttl: u128,
    table: Map<Seq<char>, Object>,
    now: u128,
)
    ensures
        expired_names(ttl, pruned(ttl, table, now), now).len() == 0,
        pruned(ttl, pruned(ttl, table, now), now) == pruned(ttl, table, now),
{
    let swept = pruned(ttl, table, now);
    assert forall|name: Seq<char>| !expired_names(ttl, swept, now).contains(name) by {
        if swept.contains_key(name) {
            assert(swept[name] == table[name]);
        }
    }
    assert(expired_names(ttl, swept, now) =~= Set::<Seq<char>>::empty());
    assert(pruned(ttl, swept, now) =~= swept);
}

/// Where no object but that of one key has expired, a sweep right after a
/// read of that key finds nothing to remove: the read has removed the object
/// or made it live.
pub proof fn law_sweep_after_read_finds_nothing(
    ttl: u128,
    table: Map<Seq<char>, Object>,
    key: Seq<char>,
    now: u128,
)
    requires
        forall|other: Seq<char>|
            expired_names(ttl, table, now).contains(other) ==> other == object_name(key),
    ensures
        expired_names(ttl, opened(ttl, table, object_name(key), now), now).len() == 0,
{
    let name = object_name(key);
    let after = opened(ttl, table, name, now);
    assert forall|other: Seq<char>| !expired_names(ttl, after, now).contains(other) by {
        if after.contains_key(other) {
            if other == name {
                assert(open_plan(ttl, probe_at(table, name, now)) == OpenPlan::Serve);
                assert(after[name].accessed == now);
            } else {
                assert(after[other] == table[other]);
                assert(!expired_names(ttl, table, now).contains(other));
            }
        }
    }
    assert(expired_names(ttl, after, now) =~= Set::<Seq<char>>::empty());
}

/// Deleting a key under which nothing is stored reports that it was not
/// found, and changes nothing.
pub proof fn law_delete_of_an_absent_key(table: Map<Seq<char>, Object>, key: Seq<char>)
    requires
        !table.contains_key(object_name(key)),
    ensures
        delete_outcome(table, object_name(key)) == Err::<(), StoreError>(StoreError::NotFound),
        deleted(table, object_name(key)) == table,
{
    assert(deleted(table, object_name(key)) =~= table);
}

/// After a save and a delete of one key, the delete has succeeded and a read
/// of the key does not find the object, whenever it comes.
pub proof fn law_save_delete_open(
    ttl: u128,
    table: Map<Seq<char>, Object>,
    key: Seq<char>,
    data: Seq<u8>,
    saved_at: u128,
    later: u128,
)
    ensures
        ({
            let name = object_name(key);
            let stored = saved(table, name, data, saved_at);
            &&& delete_outcome(stored, name) == Ok::<(), StoreError>(())
            &&& open_outcome(ttl, deleted(stored, name), name, later) == Err::<
                Seq<u8>,
                StoreError,
            >(StoreError::NotFound)
            &&& opened(ttl, deleted(stored, name), name, later) == deleted(stored, name)
        }),
{
}

/// No operation leaves its object expired: after a save the object is live,
/// after a read it is live or absent, after a delete it is absent, and after
/// a sweep every object is live. An object expires by the passing of time
/// alone.
pub proof fn law_operations_leave_objects_live_or_absent(
    ttl: u128,
    table: Map<Seq<char>, Object>,
    key: Seq<char>,
    data: Seq<u8>,
    now: u128,
    other: Seq<char>,
)
    ensures
        ({
            let name = object_name(key);
            &&& open_plan(ttl, probe_at(saved(table, name, data, now), name, now))
                == OpenPlan::Serve
            &&& open_plan(ttl, probe_at(opened(ttl, table, name, now), name, now))
                != OpenPlan::Purge
            &&& open_plan(ttl, probe_at(deleted(table, name), name, now)) == OpenPlan::Absent
            &&& open_plan(ttl, probe_at(pruned(ttl, table, now), other, now)) != OpenPlan::Purge
        }),
{
    let swept = pruned(ttl, table, now);
    if swept.contains_key(other) {
        assert(swept[other] == table[other]);
    }
}

/// A look that finds an idle time tells a live object from an expired one by
/// the time to live alone; any other look counts as expired.
pub proof fn law_expired_by_idle_time(ttl: u128, probe: Probe)
    ensures
        expired(ttl, probe) <==> !(probe matches Probe::Idle(idle) && idle <= ttl),
        open_plan(ttl, probe) == OpenPlan::Serve <==> !expired(ttl, probe),
        open_plan(ttl, probe) == OpenPlan::Absent <==> probe == Probe::Missing,
{
}

} // verus!
