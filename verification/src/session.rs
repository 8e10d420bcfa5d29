//! Short-lived sessions of the public pages, kept for ten minutes after
//! their creation.

use vstd::prelude::*;
use crate::text::{chars_of, eq_chars};
use crate::ext::{is_hyphenated_uuid, new_uuid_hyphenated, unix_now_millis};

verus! {

/// How long a session lives, in milliseconds.
pub const SESSION_TTL_MS: u64 = 600000;

/// A session: its id, its data, and when it was created (milliseconds
/// since the Unix epoch).
pub type SessionEntry<T> = (Seq<char>, T, nat);

/// The sessions still alive at `now`: those created less than the time to
/// live before it.
pub open spec fn purged<T>(e: Seq<SessionEntry<T>>, now: nat) -> Seq<SessionEntry<T>>
    decreases e.len(),
{
    if e.len() == 0 {
        Seq::empty()
    } else {
        let p = purged(e.drop_last(), now);
        if e.last().2 + SESSION_TTL_MS > now {
            p.push(e.last())
        } else {
            p
        }
    }
}

/// The sessions other than `id`.
pub open spec fn without<T>(e: Seq<SessionEntry<T>>, id: Seq<char>) -> Seq<SessionEntry<T>>
    decreases e.len(),
{
    if e.len() == 0 {
        Seq::empty()
    } else {
        let p = without(e.drop_last(), id);
        if e.last().0 == id {
            p
        } else {
            p.push(e.last())
        }
    }
}

/// The data of session `id`.
pub open spec fn lookup_session<T>(e: Seq<SessionEntry<T>>, id: Seq<char>) -> Option<T>
    decreases e.len(),
{
    if e.len() == 0 {
        None
    } else if e.last().0 == id {
        Some(e.last().1)
    } else {
        lookup_session(e.drop_last(), id)
    }
}

/// The sessions after creating session `id` with `data` at `now`.
pub open spec fn created<T>(e: Seq<SessionEntry<T>>, id: Seq<char>, data: T, now: nat) -> Seq<SessionEntry<T>> {
    without(purged(e, now), id).push((id, data, now))
}

/// The sessions after removing each of `ids` in turn, and how many of them
/// were there.
pub open spec fn removed_many<T>(e: Seq<SessionEntry<T>>, ids: Seq<Seq<char>>) -> (Seq<SessionEntry<T>>, nat)
    decreases ids.len(),
{
    if ids.len() == 0 {
        (e, 0)
    } else {
        let (p, n) = removed_many(e, ids.drop_last());
        if lookup_session(p, ids.last()) is Some {
            (without(p, ids.last()), n + 1)
        } else {
            (p, n)
        }
    }
}

/// The sessions of one kind of public page.
pub struct SessionStore<T> {
    entries: Vec<(String, T, u64)>,
}

impl<T> View for SessionStore<T> {
    type V = Seq<SessionEntry<T>>;

    closed spec fn view(&self) -> Seq<SessionEntry<T>> {
        self.entries@.map_values(|x: (String, T, u64)| (x.0@, x.1, x.2 as nat))
    }
}

proof fn lemma_without<T>(e: Seq<SessionEntry<T>>, id: Seq<char>)
    ensures
        lookup_session(without(e, id), id) is None,
    decreases e.len(),
{
    if e.len() > 0 {
        lemma_without(e.drop_last(), id);
        let p = without(e.drop_last(), id);
        if e.last().0 != id {
            assert(p.push(e.last()).drop_last() == p);
        }
    }
}

impl<T> SessionStore<T> {
    /// A store with no session.
    pub fn new() -> (r: SessionStore<T>)
        ensures
            r@ == Seq::<SessionEntry<T>>::empty(),
    {
        let r = SessionStore { entries: Vec::new() };
        assert(r@ =~= Seq::<SessionEntry<T>>::empty());
        r
    }

    /// Drops the sessions that expired before `now`.
    fn purge_expired(&mut self, now: u64)
        ensures
            final(self)@ == purged(old(self)@, now as nat),
    {
        let mut old_entries: Vec<(String, T, u64)> = Vec::new();
        std::mem::swap(&mut old_entries, &mut self.entries);
        let ghost e = old_entries@.map_values(|x: (String, T, u64)| (x.0@, x.1, x.2 as nat));
        let mut kept: Vec<(String, T, u64)> = Vec::new();
        let ghost raw = old_entries@;
        let total_n = old_entries.len();
        let mut rest = old_entries;
        let ghost total = e.len();
        assert(kept@.map_values(|x: (String, T, u64)| (x.0@, x.1, x.2 as nat)) =~= purged(e.take(0), now as nat));
        let mut i: usize = 0;
        while rest.len() > 0
            invariant
                i <= total,
                total == total_n,
                rest@.len() == total - i,
                e.len() == total,
                raw.len() == total,
                e == raw.map_values(|x: (String, T, u64)| (x.0@, x.1, x.2 as nat)),
                rest@ == raw.skip(i as int),
                kept@.map_values(|x: (String, T, u64)| (x.0@, x.1, x.2 as nat)) == purged(
                    e.take(i as int),
                    now as nat,
                ),
            decreases rest@.len(),
        {
            let item = rest.remove(0);
            assert(raw.skip(i as int).remove(0) == raw.skip(i + 1));
            assert(e.take(i + 1).drop_last() == e.take(i as int));
            assert(e.take(i + 1).last() == e[i as int]);
            let keep = (item.2 as u128) + (SESSION_TTL_MS as u128) > (now as u128);
            if keep {
                let ghost before = kept@;
                kept.push(item);
                assert(kept@.map_values(|x: (String, T, u64)| (x.0@, x.1, x.2 as nat)) =~= before.map_values(
                    |x: (String, T, u64)| (x.0@, x.1, x.2 as nat),
                ).push(e[i as int]));
            }
            i = i + 1;
        }
        assert(e.take(i as int) == e);
        self.entries = kept;
    }

    fn remove_id(&mut self, id: &str)
        ensures
            final(self)@ == without(old(self)@, id@),
    {
        let mut old_entries: Vec<(String, T, u64)> = Vec::new();
        std::mem::swap(&mut old_entries, &mut self.entries);
        let ghost e = old_entries@.map_values(|x: (String, T, u64)| (x.0@, x.1, x.2 as nat));
        let mut kept: Vec<(String, T, u64)> = Vec::new();
        let ghost raw = old_entries@;
        let total_n = old_entries.len();
        let mut rest = old_entries;
        let ghost total = e.len();
        let idc = chars_of(id);
        assert(kept@.map_values(|x: (String, T, u64)| (x.0@, x.1, x.2 as nat)) =~= without(e.take(0), id@));
        let mut i: usize = 0;
        while rest.len() > 0
            invariant
                i <= total,
                total == total_n,
                rest@.len() == total - i,
                e.len() == total,
                idc@ == id@,
                raw.len() == total,
                e == raw.map_values(|x: (String, T, u64)| (x.0@, x.1, x.2 as nat)),
                rest@ == raw.skip(i as int),
                kept@.map_values(|x: (String, T, u64)| (x.0@, x.1, x.2 as nat)) == without(
                    e.take(i as int),
                    id@,
                ),
            decreases rest@.len(),
        {
            let item = rest.remove(0);
            assert(raw.skip(i as int).remove(0) == raw.skip(i + 1));
            assert(e.take(i + 1).drop_last() == e.take(i as int));
            assert(e.take(i + 1).last() == e[i as int]);
            if !eq_chars(chars_of(item.0.as_str()).as_slice(), idc.as_slice()) {
                let ghost before = kept@;
                kept.push(item);
                assert(kept@.map_values(|x: (String, T, u64)| (x.0@, x.1, x.2 as nat)) =~= before.map_values(
                    |x: (String, T, u64)| (x.0@, x.1, x.2 as nat),
                ).push(e[i as int]));
            }
            i = i + 1;
        }
        assert(e.take(i as int) == e);
        self.entries = kept;
    }

    /// Creates a session holding `data` at time `now` and returns its id, a
    /// fresh version-4 UUID.
    pub fn create_at(&mut self, data: T, now: u64) -> (id: String)
        ensures
            is_hyphenated_uuid(id@),
            final(self)@ == created(old(self)@, id@, data, now as nat),
    {
        self.purge_expired(now);
        let id = new_uuid_hyphenated();
        self.remove_id(id.as_str());
        let ghost before = self@;
        self.entries.push((id.clone(), data, now));
        assert(self@ =~= before.push((id@, data, now as nat)));
        id
    }

    /// Creates a session holding `data` now and returns its id.
    pub fn create(&mut self, data: T) -> (id: String)
        ensures
            is_hyphenated_uuid(id@),
            exists|now: nat| final(self)@ == created(old(self)@, id@, data, now),
    {
        let now = unix_now_millis();
        let now = if now < 0 {
            0u64
        } else {
            now as u64
        };
        self.create_at(data, now)
    }

    /// The data of session `task_id` at time `now`, after dropping the
    /// expired sessions.
    pub fn get_at(&mut self, task_id: &str, now: u64) -> (r: Option<&T>)
        ensures
            final(self)@ == purged(old(self)@, now as nat),
            r matches Some(v) ==> lookup_session(final(self)@, task_id@) == Some(*v),
            r is None ==> lookup_session(final(self)@, task_id@) is None,
    {
        self.purge_expired(now);
        let idc = chars_of(task_id);
        let mut n = self.entries.len();
        let ghost e = self@;
        assert(e.take(n as int) =~= e);
        while n > 0
            invariant
                n <= self.entries@.len(),
                e == self@,
                e == purged(old(self)@, now as nat),
                idc@ == task_id@,
                lookup_session(e, task_id@) == lookup_session(e.take(n as int), task_id@),
            decreases n,
        {
            assert(e.take(n as int).drop_last() == e.take(n - 1));
            assert(e.take(n as int).last() == e[n - 1]);
            assert(e[n - 1] == (self.entries@[n - 1].0@, self.entries@[n - 1].1, self.entries@[n - 1].2 as nat));
            if eq_chars(chars_of(self.entries[n - 1].0.as_str()).as_slice(), idc.as_slice()) {
                return Some(&self.entries[n - 1].1);
            }
            n = n - 1;
        }
        None
    }

    /// The data of session `task_id` now.
    pub fn get(&mut self, task_id: &str) -> (r: Option<&T>)
        ensures
            exists|now: nat| final(self)@ == purged(old(self)@, now),
            r matches Some(v) ==> lookup_session(final(self)@, task_id@) == Some(*v),
            r is None ==> lookup_session(final(self)@, task_id@) is None,
    {
        let now = unix_now_millis();
        let now = if now < 0 {
            0u64
        } else {
            now as u64
        };
        self.get_at(task_id, now)
    }

    /// Removes session `task_id`.
    pub fn remove(&mut self, task_id: &str)
        ensures
            final(self)@ == without(old(self)@, task_id@),
    {
        self.remove_id(task_id);
    }

    /// Removes each session of `task_ids` in turn; returns how many there
    /// were.
    pub fn remove_many(&mut self, task_ids: &Vec<String>) -> (r: usize)
        ensures
            ({
                let (e, n) = removed_many(old(self)@, task_ids@.map_values(|s: String| s@));
                final(self)@ == e && r == n
            }),
    {
        let ghost ids = task_ids@.map_values(|s: String| s@);
        let ghost start = self@;
        let mut removed: usize = 0;
        let mut i: usize = 0;
        while i < task_ids.len()
            invariant
                i <= task_ids@.len(),
                ids == task_ids@.map_values(|s: String| s@),
                removed <= i,
                removed_many(start, ids.take(i as int)) == (self@, removed as nat),
            decreases task_ids@.len() - i,
        {
            assert(ids.take(i + 1).drop_last() == ids.take(i as int));
            assert(ids.take(i + 1).last() == task_ids@[i as int]@);
            let present = self.contains(task_ids[i].as_str());
            if present {
                self.remove_id(task_ids[i].as_str());
                removed = removed + 1;
            }
            i = i + 1;
        }
        assert(ids.take(i as int) == ids);
        removed
    }

    fn contains(&self, task_id: &str) -> (b: bool)
        ensures
            b == lookup_session(self@, task_id@) is Some,
    {
        let idc = chars_of(task_id);
        let mut n = self.entries.len();
        let ghost e = self@;
        assert(e.take(n as int) =~= e);
        while n > 0
            invariant
                n <= self.entries@.len(),
                e == self@,
                idc@ == task_id@,
                lookup_session(e, task_id@) == lookup_session(e.take(n as int), task_id@),
            decreases n,
        {
            assert(e.take(n as int).drop_last() == e.take(n - 1));
            assert(e.take(n as int).last() == e[n - 1]);
            assert(e[n - 1].0 == self.entries@[n - 1].0@);
            if eq_chars(chars_of(self.entries[n - 1].0.as_str()).as_slice(), idc.as_slice()) {
                return true;
            }
            n = n - 1;
        }
        false
    }
}

// ---------------------------------------------------------------------------
// Laws
// ---------------------------------------------------------------------------

proof fn lemma_purged_keeps_last<T>(e: Seq<SessionEntry<T>>, x: SessionEntry<T>, later: nat)
    requires
        x.2 + SESSION_TTL_MS > later,
    ensures
        purged(e.push(x), later) == purged(e, later).push(x),
{
    assert(e.push(x).drop_last() == e);
}

/// A session reads back the data it was created with until its time to
/// live has passed.
pub proof fn lemma_get_after_create<T>(
    e: Seq<SessionEntry<T>>,
    id: Seq<char>,
    data: T,
    now: nat,
    later: nat,
)
    requires
        later < now + SESSION_TTL_MS,
    ensures
        lookup_session(purged(created(e, id, data, now), later), id) == Some(data),
{
    lemma_purged_keeps_last(without(purged(e, now), id), (id, data, now), later);
}

/// A removed session is gone.
pub proof fn lemma_get_after_remove<T>(e: Seq<SessionEntry<T>>, id: Seq<char>, now: nat)
    ensures
        lookup_session(purged(without(e, id), now), id) is None,
{
    lemma_without(e, id);
    lemma_purged_lookup_none(without(e, id), id, now);
}

proof fn lemma_purged_lookup_none<T>(e: Seq<SessionEntry<T>>, id: Seq<char>, now: nat)
    requires
        lookup_session(e, id) is None,
    ensures
        lookup_session(purged(e, now), id) is None,
    decreases e.len(),
{
    if e.len() > 0 {
        lemma_purged_lookup_none(e.drop_last(), id, now);
        let p = purged(e.drop_last(), now);
        assert(e.last().0 != id);
        assert(p.push(e.last()).drop_last() == p);
    }
}

} // verus!
