//! The session registry: a mapping from session identity to session, with an
//! expiry sweep. Identities are unique, insertion order is irrelevant.

use vstd::prelude::*;

use crate::session::{spec_expired, CloseInfo, EmittedFrame, Frame, Session};

verus! {

/// The registry of live sessions, keyed by identity.
pub struct SessionRegistry {
    sessions: Vec<Session>,
}

/// The identities of the expired sessions, in registry order.
pub open spec fn spec_expired_ids(sessions: Seq<Session>, now: u128) -> Seq<Seq<char>>
    decreases sessions.len(),
{
    if sessions.len() == 0 {
        Seq::empty()
    } else {
        spec_expired_ids(sessions.drop_last(), now) + if spec_expired(sessions.last(), now) {
            seq![sessions.last().spec_id()]
        } else {
            Seq::<Seq<char>>::empty()
        }
    }
}

impl SessionRegistry {
    pub closed spec fn spec_sessions(&self) -> Seq<Session> {
        self.sessions@
    }

    /// Identities are pairwise distinct.
    pub open spec fn wf(&self) -> bool {
        forall|i: int, j: int|
            0 <= i < j < self.spec_sessions().len() ==> self.spec_sessions()[i].spec_id()
                != self.spec_sessions()[j].spec_id()
    }

    pub open spec fn spec_contains(&self, id: Seq<char>) -> bool {
        exists|i: int|
            0 <= i < self.spec_sessions().len() && self.spec_sessions()[i].spec_id() == id
    }

    pub open spec fn spec_index_of(&self, id: Seq<char>) -> int {
        choose|i: int|
            0 <= i < self.spec_sessions().len() && self.spec_sessions()[i].spec_id() == id
    }

    /// The session registered under `id` (meaningful when `spec_contains`).
    pub open spec fn spec_get(&self, id: Seq<char>) -> Session {
        self.spec_sessions()[self.spec_index_of(id)]
    }

    pub fn new() -> (r: Self)
        ensures
            r.wf(),
            r.spec_sessions().len() == 0,
            forall|id: Seq<char>| !r.spec_contains(id),
    {
        SessionRegistry { sessions: Vec::new() }
    }

    fn index_of(&self, id: &str) -> (r: Option<usize>)
        ensures
            match r {
                Some(i) => i < self.spec_sessions().len() && self.spec_sessions()[
                    i as int
                ].spec_id() == id@,
                None => !self.spec_contains(id@),
            },
    {
        let n = self.sessions.len();
        let mut i: usize = 0;
        while i < n
            invariant
                i <= n,
                n == self.spec_sessions().len(),
                forall|k: int| 0 <= k < i ==> self.spec_sessions()[k].spec_id() != id@,
            decreases n - i,
        {
            if self.sessions[i].id_matches(id) {
                return Some(i);
            }
            i += 1;
        }
        None
    }

    /// The session registered under `id`, if any.
    pub fn get_session(&self, id: &str) -> (r: Option<&Session>)
        requires
            self.wf(),
        ensures
            match r {
                Some(s) => self.spec_contains(id@) && *s == self.spec_get(id@),
                None => !self.spec_contains(id@),
            },
    {
        match self.index_of(id) {
            Some(i) => {
                proof {
                    self.lemma_get_at(id@, i as int);
                }
                Some(&self.sessions[i])
            },
            None => None,
        }
    }

    /// Whether a session is registered under `id`.
    pub fn contains_session(&self, id: &str) -> (r: bool)
        ensures
            r == self.spec_contains(id@),
    {
        match self.index_of(id) {
            Some(_) => true,
            None => false,
        }
    }

    /// With distinct identities, any index holding `id` is the index
    /// `spec_get` reads.
    pub proof fn lemma_get_at(&self, id: Seq<char>, i: int)
        requires
            self.wf(),
            0 <= i < self.spec_sessions().len(),
            self.spec_sessions()[i].spec_id() == id,
        ensures
            self.spec_contains(id),
            self.spec_index_of(id) == i,
            self.spec_get(id) == self.spec_sessions()[i],
    {
        assert(self.spec_contains(id));
        let j = self.spec_index_of(id);
        assert(0 <= j < self.spec_sessions().len() && self.spec_sessions()[j].spec_id() == id);
        if i < j {
            assert(self.spec_sessions()[i].spec_id() != self.spec_sessions()[j].spec_id());
        } else if j < i {
            assert(self.spec_sessions()[j].spec_id() != self.spec_sessions()[i].spec_id());
        }
    }

    /// Takes the session registered under `id` out of the registry, if any;
    /// every other entry is untouched. The caller owns what it takes.
    pub fn take_session(&mut self, id: &str) -> (r: Option<Session>)
        requires
            old(self).wf(),
        ensures
            final(self).wf(),
            !final(self).spec_contains(id@),
            match r {
                Some(s) => old(self).spec_contains(id@) && s == old(self).spec_get(id@),
                None => !old(self).spec_contains(id@) && *final(self) == *old(self),
            },
            forall|other: Seq<char>|
                other != id@ ==> final(self).spec_contains(other) == old(self).spec_contains(
                    other,
                ),
            forall|other: Seq<char>|
                other != id@ && old(self).spec_contains(other) ==> final(self).spec_get(other)
                    == old(self).spec_get(other),
    {
        let ghost olds = old(self).spec_sessions();
        match self.index_of(id) {
            None => {
                proof {
                    assert(forall|other: Seq<char>|
                        self.spec_contains(other) == old(self).spec_contains(other));
                }
                None
            },
            Some(i) => {
                proof {
                    old(self).lemma_get_at(id@, i as int);
                }
                let taken = self.sessions.remove(i);
                proof {
                    let news = self.spec_sessions();
                    assert(news =~= olds.remove(i as int));
                    assert forall|a: int| 0 <= a < news.len() implies news[a] == (if a < i {
                        olds[a]
                    } else {
                        olds[a + 1]
                    }) by {}
                    assert(final(self).wf());
                    assert(!final(self).spec_contains(id@)) by {
                        if self.spec_contains(id@) {
                            let w = choose|k: int|
                                0 <= k < news.len() && news[k].spec_id() == id@;
                            if w < i {
                                assert(olds[w].spec_id() == id@);
                                assert(olds[i as int].spec_id() == id@);
                            } else {
                                assert(olds[w + 1].spec_id() == id@);
                                assert(olds[i as int].spec_id() == id@);
                            }
                        }
                    }
                    assert forall|other: Seq<char>| other != id@ implies final(self).spec_contains(other) == old(self).spec_contains(other) by {
                        if old(self).spec_contains(other) {
                            let w = choose|k: int|
                                0 <= k < olds.len() && olds[k].spec_id() == other;
                            if w < i {
                                assert(news[w].spec_id() == other);
                            } else {
                                assert(w != i);
                                assert(news[w - 1].spec_id() == other);
                            }
                        }
                        if self.spec_contains(other) {
                            let w = choose|k: int|
                                0 <= k < news.len() && news[k].spec_id() == other;
                            if w < i {
                                assert(olds[w].spec_id() == other);
                            } else {
                                assert(olds[w + 1].spec_id() == other);
                            }
                        }
                    }
                    assert forall|other: Seq<char>|
                        other != id@ && old(self).spec_contains(other) implies final(self).spec_get(other) == old(self).spec_get(other) by {
                        let w = choose|k: int| 0 <= k < olds.len() && olds[k].spec_id() == other;
                        old(self).lemma_get_at(other, w);
                        if w < i {
                            self.lemma_get_at(other, w);
                        } else {
                            assert(w != i);
                            assert(news[w - 1] == olds[w]);
                            self.lemma_get_at(other, w - 1);
                        }
                    }
                }
                Some(taken)
            },
        }
    }

    /// Idempotent removal: removing an identity that is not registered is a
    /// no-op; every other entry is untouched.
    pub fn remove_session(&mut self, id: &str)
        requires
            old(self).wf(),
        ensures
            final(self).wf(),
            !final(self).spec_contains(id@),
            forall|other: Seq<char>|
                other != id@ ==> final(self).spec_contains(other) == old(self).spec_contains(
                    other,
                ),
            forall|other: Seq<char>|
                other != id@ && old(self).spec_contains(other) ==> final(self).spec_get(other)
                    == old(self).spec_get(other),
    {
        let _ = self.take_session(id);
    }

    /// Inserts by identity, overwriting any prior entry with the same
    /// identity; every other entry is untouched.
    pub fn add_session(&mut self, session: Session)
        requires
            old(self).wf(),
        ensures
            final(self).wf(),
            final(self).spec_contains(session.spec_id()),
            final(self).spec_get(session.spec_id()) == session,
            forall|other: Seq<char>|
                other != session.spec_id() ==> final(self).spec_contains(other) == old(self).spec_contains(other),
            forall|other: Seq<char>|
                other != session.spec_id() && old(self).spec_contains(other) ==> final(self).spec_get(other) == old(self).spec_get(other),
    {
        let id = session.get_session_id();
        self.remove_session(id.as_str());
        let ghost mid = *self;
        let ghost mids = mid.spec_sessions();
        self.sessions.push(session);
        proof {
            let news = self.spec_sessions();
            assert(news =~= mids.push(session));
            assert(final(self).wf()) by {
                assert forall|i: int, j: int| 0 <= i < j < news.len() implies news[i].spec_id()
                    != news[j].spec_id() by {
                    if j == news.len() - 1 {
                        assert(news[i] == mids[i]);
                        if mids[i].spec_id() == session.spec_id() {
                            assert(mid.spec_contains(session.spec_id()));
                        }
                    }
                }
            }
            self.lemma_get_at(session.spec_id(), news.len() - 1);
            assert forall|other: Seq<char>| other != session.spec_id() implies final(self).spec_contains(other) == mid.spec_contains(other) by {
                if mid.spec_contains(other) {
                    let w = choose|k: int| 0 <= k < mids.len() && mids[k].spec_id() == other;
                    assert(news[w].spec_id() == other);
                }
                if self.spec_contains(other) {
                    let w = choose|k: int| 0 <= k < news.len() && news[k].spec_id() == other;
                    assert(w < mids.len());
                    assert(mids[w].spec_id() == other);
                }
            }
            assert forall|other: Seq<char>|
                other != session.spec_id() && mid.spec_contains(other) implies final(self).spec_get(other) == mid.spec_get(other) by {
                let w = choose|k: int| 0 <= k < mids.len() && mids[k].spec_id() == other;
                mid.lemma_get_at(other, w);
                self.lemma_get_at(other, w);
            }
        }
    }

    /// The expiry sweep: offers each expired session a close frame (normal
    /// code 1000, reason "expired"), recorded on that session's emission
    /// log, and reports their identities in registry order. It removes
    /// nothing — removal is the per-connection teardown's job — and changes
    /// nothing else of any session.
    pub fn sweep(&mut self, now: u128) -> (nudged: Vec<String>)
        requires
            old(self).wf(),
        ensures
            final(self).wf(),
            final(self).spec_sessions().len() == old(self).spec_sessions().len(),
            forall|k: int|
                #![trigger final(self).spec_sessions()[k]]
                0 <= k < old(self).spec_sessions().len() ==> {
                    let s_old = old(self).spec_sessions()[k];
                    let s_new = final(self).spec_sessions()[k];
                    if spec_expired(s_old, now) {
                        &&& s_new.spec_id() == s_old.spec_id()
                        &&& s_new.spec_sink() == s_old.spec_sink()
                        &&& s_new.spec_last_active() == s_old.spec_last_active()
                        &&& s_new.spec_emitted() == s_old.spec_emitted().push(
                            EmittedFrame::Close(Some((1000u16, "expired"@))),
                        )
                    } else {
                        s_new == s_old
                    }
                },
            nudged@.map_values(|s: String| s@) == spec_expired_ids(old(self).spec_sessions(), now),
    {
        let n = self.sessions.len();
        let mut nudged: Vec<String> = Vec::new();
        let mut i: usize = 0;
        proof {
            assert(nudged@.map_values(|s: String| s@) =~= spec_expired_ids(
                old(self).spec_sessions().take(0),
                now,
            ));
        }
        while i < n
            invariant
                i <= n,
                n == old(self).spec_sessions().len(),
                self.spec_sessions().len() == n,
                forall|k: int| i <= k < n ==> self.spec_sessions()[k] == old(self).spec_sessions()[k],
                forall|k: int|
                    #![trigger self.spec_sessions()[k]]
                    0 <= k < i ==> {
                        let s_old = old(self).spec_sessions()[k];
                        let s_new = self.spec_sessions()[k];
                        if spec_expired(s_old, now) {
                            &&& s_new.spec_id() == s_old.spec_id()
                            &&& s_new.spec_sink() == s_old.spec_sink()
                            &&& s_new.spec_last_active() == s_old.spec_last_active()
                            &&& s_new.spec_emitted() == s_old.spec_emitted().push(
                                EmittedFrame::Close(Some((1000u16, "expired"@))),
                            )
                        } else {
                            s_new == s_old
                        }
                    },
                nudged@.map_values(|s: String| s@) =~= spec_expired_ids(
                    old(self).spec_sessions().take(i as int),
                    now,
                ),
            decreases n - i,
        {
            if self.sessions[i].is_expired(now) {
                let ghost snap = self.spec_sessions();
                let mut session = self.sessions.remove(i);
                let _ = session.send_message(
                    Frame::Close(
                        Some(CloseInfo { code: 1000u16, reason: String::from_str("expired") }),
                    ),
                );
                nudged.push(session.get_session_id());
                self.sessions.insert(i, session);
                proof {
                    assert(self.spec_sessions() =~= snap.update(i as int, session));
                }
            }
            i += 1;
            proof {
                let pre = old(self).spec_sessions().take(i as int - 1);
                let cur = old(self).spec_sessions().take(i as int);
                assert(cur.drop_last() =~= pre);
                assert(cur.last() == old(self).spec_sessions()[i as int - 1]);
                assert(nudged@.map_values(|s: String| s@) =~= spec_expired_ids(cur, now));
            }
        }
        proof {
            assert(old(self).spec_sessions().take(n as int) =~= old(self).spec_sessions());
            assert(final(self).wf()) by {
                assert forall|a: int, b: int|
                    0 <= a < b < self.spec_sessions().len() implies self.spec_sessions()[
                    a
                ].spec_id() != self.spec_sessions()[b].spec_id() by {
                    assert(self.spec_sessions()[a].spec_id() == old(self).spec_sessions()[
                        a
                    ].spec_id());
                    assert(self.spec_sessions()[b].spec_id() == old(self).spec_sessions()[
                        b
                    ].spec_id());
                }
            }
        }
        nudged
    }
}

} // verus!
