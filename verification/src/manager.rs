//! The session pool: a capped registry of sessions keyed by conversation
//! id. Writing into a full pool first evicts the least recently active
//! session, so the pool never holds more than its configured maximum.

use vstd::prelude::*;
use vstd::string::*;
use crate::session::{CharacterSession, SessionInfo};
use crate::strings::str_eq;

verus! {

/// Whether `e` is the first least-recently-active position of `s`.
pub open spec fn is_first_oldest(s: Seq<CharacterSession>, e: int) -> bool {
    &&& 0 <= e < s.len()
    &&& forall|j: int| 0 <= j < s.len() ==> (#[trigger] s[j].last_active) >= s[e].last_active
    &&& forall|j: int| 0 <= j < e ==> (#[trigger] s[j].last_active) > s[e].last_active
}

/// A capped pool of sessions.
pub struct SessionManager {
    pub sessions: Vec<CharacterSession>,
    pub max_sessions: usize,
}

impl SessionManager {
    /// The pool invariant: at most `max_sessions` sessions, each with its
    /// own conversation id.
    pub open spec fn wf(self) -> bool {
        &&& self.max_sessions >= 1
        &&& self.sessions@.len() <= self.max_sessions
        &&& forall|i: int, j: int| 0 <= i < j < self.sessions@.len()
            ==> (#[trigger] self.sessions@[i].uuid@) != (#[trigger] self.sessions@[j].uuid@)
    }

    /// The stored sessions.
    pub open spec fn pool(self) -> Seq<CharacterSession> {
        self.sessions@
    }

    /// The configured maximum.
    pub open spec fn capacity(self) -> nat {
        self.max_sessions as nat
    }

    /// An empty pool with the given capacity.
    pub fn new(max_sessions: usize) -> (r: SessionManager)
        requires
            max_sessions >= 1,
        ensures
            r.wf(),
            r.pool().len() == 0,
            r.capacity() == max_sessions,
    {
        SessionManager {
            sessions: Vec::new(),
            max_sessions,
        }
    }

    /// How many sessions the pool holds.
    pub fn len(&self) -> (n: usize)
        ensures
            n == self.pool().len(),
    {
        self.sessions.len()
    }

    /// Find the position of a conversation id.
    fn position_of(&self, uuid: &str) -> (r: Option<usize>)
        ensures
            match r {
                Some(i) => i < self.pool().len() && self.pool()[i as int].uuid@ == uuid@,
                None => forall|i: int| 0 <= i < self.pool().len()
                    ==> (#[trigger] self.pool()[i].uuid@) != uuid@,
            },
    {
        let mut i: usize = 0;
        while i < self.sessions.len()
            invariant
                i <= self.sessions@.len(),
                forall|j: int| 0 <= j < i
                    ==> (#[trigger] self.sessions@[j].uuid@) != uuid@,
            decreases self.sessions@.len() - i,
    {
            if str_eq(self.sessions[i].uuid.as_str(), uuid) {
                return Some(i);
            }
            i += 1;
        }
        None
    }

    /// Borrow the session of a conversation id, if the pool holds one.
    pub fn get_session(&self, uuid: &str) -> (r: Option<&CharacterSession>)
        ensures
            match r {
                Some(s) => exists|i: int| 0 <= i < self.pool().len()
                    && self.pool()[i] == *s && s.uuid@ == uuid@,
                None => forall|i: int| 0 <= i < self.pool().len()
                    ==> (#[trigger] self.pool()[i].uuid@) != uuid@,
            },
    {
        match self.position_of(uuid) {
            Some(i) => Some(&self.sessions[i]),
            None => None,
        }
    }

    /// Write a session back into the pool: replace the session with the
    /// same conversation id, or insert the new one, evicting the first
    /// least-recently-active session when the pool is full. Returns the
    /// evicted session, if any. The pool never grows past its capacity.
    pub fn update_session(&mut self, session: CharacterSession)
        -> (evicted: Option<CharacterSession>)
        requires
            old(self).wf(),
        ensures
            final(self).wf(),
            final(self).capacity() == old(self).capacity(),
            final(self).pool().len() <= old(self).capacity(),
            ({
                let pool = old(self).pool();
                if exists|i: int| 0 <= i < pool.len() && (#[trigger] pool[i].uuid@)
                    == session.uuid@ {
                    &&& evicted is None
                    &&& exists|i: int| 0 <= i < pool.len() && (#[trigger] pool[i].uuid@)
                        == session.uuid@
                        && final(self).pool() == pool.update(i, session)
                } else if pool.len() < old(self).capacity() {
                    evicted is None && final(self).pool() == pool.push(session)
                } else {
                    exists|e: int| {
                        &&& #[trigger] is_first_oldest(pool, e)
                        &&& evicted == Some(pool[e])
                        &&& final(self).pool() == pool.remove(e).push(session)
                    }
                }
            }),
    {
        match self.position_of(session.uuid.as_str()) {
            Some(i) => {
                self.sessions.set(i, session);
                proof {
                    assert forall|a: int, b: int| 0 <= a < b < self.sessions@.len()
                        implies (#[trigger] self.sessions@[a].uuid@)
                            != (#[trigger] self.sessions@[b].uuid@) by {
                        assert(old(self).sessions@[a].uuid@ != old(self).sessions@[b].uuid@);
                    }
                }
                None
            },
            None => {
                if self.sessions.len() < self.max_sessions {
                    self.sessions.push(session);
                    None
                } else {
                    let e = self.first_oldest();
                    let removed = self.sessions.remove(e);
                    self.sessions.push(session);
                    proof {
                        let pool = old(self).pool();
                        assert(self.sessions@ =~= pool.remove(e as int).push(session));
                        assert forall|a: int, b: int| 0 <= a < b < self.sessions@.len()
                            implies (#[trigger] self.sessions@[a].uuid@)
                                != (#[trigger] self.sessions@[b].uuid@) by {
                            if b < self.sessions@.len() - 1 {
                                let oa = if a < e { a } else { a + 1 };
                                let ob = if b < e { b } else { b + 1 };
                                assert(pool[oa].uuid@ != pool[ob].uuid@);
                            } else {
                                let oa = if a < e { a } else { a + 1 };
                                assert(pool[oa].uuid@ != session.uuid@);
                            }
                        }
                    }
                    Some(removed)
                }
            },
        }
    }

    /// The first least-recently-active position; the pool must not be
    /// empty.
    fn first_oldest(&self) -> (e: usize)
        requires
            self.pool().len() > 0,
        ensures
            is_first_oldest(self.pool(), e as int),
    {
        let mut best: usize = 0;
        let mut i: usize = 1;
        while i < self.sessions.len()
            invariant
                best < i,
                i <= self.sessions@.len(),
                forall|j: int| 0 <= j < i ==> (#[trigger] self.sessions@[j].last_active)
                    >= self.sessions@[best as int].last_active,
                forall|j: int| 0 <= j < best ==> (#[trigger] self.sessions@[j].last_active)
                    > self.sessions@[best as int].last_active,
            decreases self.sessions@.len() - i,
        {
            if self.sessions[i].last_active < self.sessions[best].last_active {
                best = i;
            }
            i += 1;
        }
        best
    }

    /// Remove and return the session of a conversation id.
    pub fn remove_session(&mut self, uuid: &str) -> (r: Option<CharacterSession>)
        requires
            old(self).wf(),
        ensures
            final(self).wf(),
            final(self).capacity() == old(self).capacity(),
            match r {
                Some(s) => exists|i: int| 0 <= i < old(self).pool().len()
                    && s == old(self).pool()[i] && s.uuid@ == uuid@
                    && final(self).pool() == old(self).pool().remove(i),
                None => final(self).pool() == old(self).pool()
                    && forall|i: int| 0 <= i < old(self).pool().len()
                        ==> (#[trigger] old(self).pool()[i].uuid@) != uuid@,
            },
    {
        match self.position_of(uuid) {
            Some(i) => {
                let removed = self.sessions.remove(i);
                proof {
                    assert forall|a: int, b: int| 0 <= a < b < self.sessions@.len()
                        implies (#[trigger] self.sessions@[a].uuid@)
                            != (#[trigger] self.sessions@[b].uuid@) by {
                        let oa = if a < i { a } else { a + 1 };
                        let ob = if b < i { b } else { b + 1 };
                        assert(old(self).sessions@[oa].uuid@ != old(self).sessions@[ob].uuid@);
                    }
                }
                Some(removed)
            },
            None => None,
        }
    }

    /// Summaries of every pooled session.
    pub fn get_all_sessions_info(&self) -> (r: Vec<SessionInfo>)
        ensures
            r@.len() == self.pool().len(),
            forall|i: int| 0 <= i < r@.len() ==> {
                &&& (#[trigger] r@[i].uuid@) == self.pool()[i].uuid@
                &&& r@[i].message_count == self.pool()[i].chat_history@.len()
                &&& r@[i].last_active == self.pool()[i].last_active
            },
    {
        let mut out: Vec<SessionInfo> = Vec::new();
        let mut i: usize = 0;
        while i < self.sessions.len()
            invariant
                i <= self.sessions@.len(),
                out@.len() == i,
                forall|j: int| 0 <= j < i ==> {
                    &&& (#[trigger] out@[j].uuid@) == self.sessions@[j].uuid@
                    &&& out@[j].message_count == self.sessions@[j].chat_history@.len()
                    &&& out@[j].last_active == self.sessions@[j].last_active
                },
            decreases self.sessions@.len() - i,
        {
            out.push(self.sessions[i].get_session_info());
            i += 1;
        }
        out
    }

    /// Drop every session whose last activity lies further back than
    /// `max_age_secs` before `now`; returns how many were dropped.
    pub fn cleanup_expired(&mut self, now: i64, max_age_secs: i64) -> (r: usize)
        requires
            old(self).wf(),
        ensures
            final(self).wf(),
            final(self).capacity() == old(self).capacity(),
            final(self).pool() == old(self).pool().filter(
                |s: CharacterSession| now - s.last_active <= max_age_secs),
            r == old(self).pool().len() - final(self).pool().len(),
    {
        let ghost spec_pred = |s: CharacterSession| now - s.last_active <= max_age_secs;
        let ghost orig = self.sessions@;
        let before = self.sessions.len();
        let mut i: usize = 0;
        let ghost k: int = 0;
        proof {
            assert(orig.take(0).filter(spec_pred) =~= Seq::<CharacterSession>::empty());
            assert(self.sessions@ =~= orig.take(0).filter(spec_pred) + orig.skip(0));
        }
        while i < self.sessions.len()
            invariant
                0 <= k <= orig.len(),
                i == orig.take(k).filter(spec_pred).len(),
                self.sessions@ == orig.take(k).filter(spec_pred) + orig.skip(k),
                i <= self.sessions@.len(),
                orig == old(self).pool(),
                self.max_sessions == old(self).max_sessions,
                old(self).wf(),
                spec_pred == (|s: CharacterSession| now - s.last_active <= max_age_secs),
            decreases self.sessions@.len() - i,
        {
            proof {
                orig.take(k).filter(spec_pred).lemma_filter_len(spec_pred);
                assert(self.sessions@[i as int] == orig.skip(k)[0]);
                assert(orig.skip(k)[0] == orig[k]);
                let t = orig.take(k + 1);
                assert(t.drop_last() =~= orig.take(k));
                assert(t.last() == orig[k]);
                reveal_with_fuel(Seq::filter, 2);
            }
            let s = &self.sessions[i];
            let keep = (now as i128) - (s.last_active as i128) <= max_age_secs as i128;
            if keep {
                proof {
                    assert(orig.take(k + 1).filter(spec_pred)
                        =~= orig.take(k).filter(spec_pred).push(orig[k]));
                    assert(orig.take(k).filter(spec_pred).push(orig[k]) + orig.skip(k + 1)
                        =~= self.sessions@);
                }
                i += 1;
            } else {
                self.sessions.remove(i);
                proof {
                    assert(orig.take(k + 1).filter(spec_pred)
                        =~= orig.take(k).filter(spec_pred));
                    assert(self.sessions@
                        =~= orig.take(k + 1).filter(spec_pred) + orig.skip(k + 1));
                }
            }
            proof {
                k = k + 1;
            }
        }
        proof {
            assert(orig.skip(orig.len() as int) =~= Seq::<CharacterSession>::empty());
            assert(k == orig.len()) by {
                if k < orig.len() {
                    orig.take(k).filter(spec_pred).lemma_filter_len(spec_pred);
                    assert(self.sessions@.len() > i);
                }
            }
            assert(orig.take(orig.len() as int) =~= orig);
            assert(self.sessions@ =~= orig.filter(spec_pred));
            orig.lemma_filter_len(spec_pred);
            assert forall|a: int, b: int| 0 <= a < b < self.sessions@.len()
                implies (#[trigger] self.sessions@[a].uuid@)
                    != (#[trigger] self.sessions@[b].uuid@) by {
                lemma_filter_still_distinct(orig, spec_pred, a, b);
            }
        }
        let after = self.sessions.len();
        before - after
    }
}

/// Distinct conversation ids stay distinct under filtering.
proof fn lemma_filter_still_distinct(s: Seq<CharacterSession>,
    pred: spec_fn(CharacterSession) -> bool, a: int, b: int)
    requires
        forall|i: int, j: int| 0 <= i < j < s.len()
            ==> (#[trigger] s[i].uuid@) != (#[trigger] s[j].uuid@),
        0 <= a < b < s.filter(pred).len(),
    ensures
        s.filter(pred)[a].uuid@ != s.filter(pred)[b].uuid@,
    decreases s.len(),
{
    reveal_with_fuel(Seq::filter, 2);
    if s.len() > 0 {
        let rest = s.drop_last();
        assert(rest.len() < s.len());
        if pred(s.last()) {
            if b < s.filter(pred).len() - 1 {
                lemma_filter_still_distinct(rest, pred, a, b);
            } else {
                // the last filtered element is s.last(); the earlier one
                // comes from the prefix
                lemma_filter_member(rest, pred, a);
                let i = choose|i: int| 0 <= i < rest.len() && rest[i] == rest.filter(pred)[a];
                assert(s[i] == rest.filter(pred)[a]);
                assert(s[i].uuid@ != s[s.len() - 1].uuid@);
            }
        } else {
            lemma_filter_still_distinct(rest, pred, a, b);
        }
    }
}

/// Every filtered element is one of the original elements.
proof fn lemma_filter_member(s: Seq<CharacterSession>,
    pred: spec_fn(CharacterSession) -> bool, a: int)
    requires
        0 <= a < s.filter(pred).len(),
    ensures
        exists|i: int| 0 <= i < s.len() && s[i] == s.filter(pred)[a],
    decreases s.len(),
{
    reveal_with_fuel(Seq::filter, 2);
    if s.len() > 0 {
        let rest = s.drop_last();
        if pred(s.last()) && a == s.filter(pred).len() - 1 {
            assert(s[s.len() - 1] == s.filter(pred)[a]);
        } else {
            lemma_filter_member(rest, pred, a);
            let i = choose|i: int| 0 <= i < rest.len() && rest[i] == rest.filter(pred)[a];
            assert(s[i] == s.filter(pred)[a]);
        }
    }
}

} // verus!
