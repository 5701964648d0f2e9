//! The running tail sessions, each known by its id with the handle that stops it.
//!
//! Stopping a session is the caller's work: the manager hands back the handles of
//! the sessions it drops, and the caller fires them.
use vstd::prelude::*;
use crate::text::{chars_of, eq_chars};

verus! {

/// The sessions in the order they were added, each id once.
pub struct TailSessionManager<S> {
    sessions: Vec<(String, S)>,
}

/// The mathematical content of a list of sessions.
pub open spec fn sessions_view<S>(v: Seq<(String, S)>) -> Seq<(Seq<char>, S)> {
    v.map_values(|e: (String, S)| (e.0@, e.1))
}

/// No id occurs twice.
pub open spec fn ids_distinct<S>(v: Seq<(Seq<char>, S)>) -> bool {
    forall|i: int, j: int| 0 <= i < j < v.len() ==> (#[trigger] v[i]).0 != (#[trigger] v[j]).0
}

/// Where the session with this id is.
pub open spec fn position_of<S>(v: Seq<(Seq<char>, S)>, id: Seq<char>) -> Option<int> {
    if exists|i: int| 0 <= i < v.len() && (#[trigger] v[i]).0 == id {
        Some(choose|i: int| 0 <= i < v.len() && (#[trigger] v[i]).0 == id)
    } else {
        None
    }
}

/// The sessions without the one with this id, and its handle if there was one.
pub open spec fn without<S>(v: Seq<(Seq<char>, S)>, id: Seq<char>) -> (Seq<(Seq<char>, S)>, Option<S>) {
    match position_of(v, id) {
        Some(i) => (v.remove(i), Some(v[i].1)),
        None => (v, None),
    }
}

impl<S> View for TailSessionManager<S> {
    type V = Seq<(Seq<char>, S)>;

    closed spec fn view(&self) -> Seq<(Seq<char>, S)> {
        sessions_view(self.sessions@)
    }
}

impl<S> TailSessionManager<S> {
    pub closed spec fn wf(&self) -> bool {
        ids_distinct(self@)
    }

    /// No sessions.
    pub fn new() -> (r: Self)
        ensures
            r@ == Seq::<(Seq<char>, S)>::empty(),
            r.wf(),
    {
        let r = TailSessionManager { sessions: Vec::new() };
        assert(r@ =~= Seq::<(Seq<char>, S)>::empty());
        r
    }

    fn find(&self, id: &str) -> (r: Option<usize>)
        requires
            self.wf(),
        ensures
            match r {
                Some(i) => position_of(self@, id@) == Some(i as int),
                None => position_of(self@, id@) is None,
            },
    {
        let key = chars_of(id);
        let mut i: usize = 0;
        while i < self.sessions.len()
            invariant
                i <= self.sessions@.len(),
                key@ == id@,
                self@ == sessions_view(self.sessions@),
                ids_distinct(self@),
                forall|k: int| 0 <= k < i ==> (#[trigger] self@[k]).0 != id@,
            decreases self.sessions.len() - i,
        {
            let c = chars_of(self.sessions[i].0.as_str());
            assert(self@[i as int].0 == self.sessions@[i as int].0@);
            if eq_chars(&c, &key) {
                let ghost v = self@;
                assert(v[i as int].0 == id@);
                assert(exists|j: int| 0 <= j < v.len() && (#[trigger] v[j]).0 == id@);
                let ghost c2 = choose|j: int| 0 <= j < v.len() && (#[trigger] v[j]).0 == id@;
                assert(c2 == i as int) by {
                    if c2 < i as int {
                        assert(v[c2].0 != id@);
                    } else if c2 > i as int {
                        assert(v[i as int].0 != v[c2].0);
                    }
                }
                return Some(i);
            }
            i = i + 1;
        }
        None
    }

    /// Drops the session with this id and hands back its handle, to be fired.
    pub fn stop_session(&mut self, session_id: &str) -> (r: Option<S>)
        requires
            old(self).wf(),
        ensures
            final(self).wf(),
            (final(self)@, r) == without(old(self)@, session_id@),
    {
        match self.find(session_id) {
            Some(i) => {
                let ghost v = self@;
                let e = self.sessions.remove(i);
                assert(self@ =~= v.remove(i as int));
                Some(e.1)
            },
            None => None,
        }
    }

    /// Adds a session under its id; a session already there under the same id is
    /// dropped and its handle handed back, to be fired.
    pub fn add_session(&mut self, session_id: String, stopper: S) -> (r: Option<S>)
        requires
            old(self).wf(),
        ensures
            final(self).wf(),
            r == without(old(self)@, session_id@).1,
            final(self)@ == without(old(self)@, session_id@).0.push((session_id@, stopper)),
    {
        let r = self.stop_session(session_id.as_str());
        let ghost v = self@;
        proof {
            lemma_without_drops_id(old(self)@, session_id@);
        }
        self.sessions.push((session_id, stopper));
        assert(self@ =~= v.push((session_id@, stopper)));
        r
    }

    /// Drops every session and hands back their handles, in the order the sessions
    /// were added, to be fired.
    pub fn stop_all(&mut self) -> (r: Vec<S>)
        requires
            old(self).wf(),
        ensures
            final(self)@ == Seq::<(Seq<char>, S)>::empty(),
            final(self).wf(),
            r@ == old(self)@.map_values(|e: (Seq<char>, S)| e.1),
    {
        let mut out: Vec<S> = Vec::new();
        let ghost orig = self.sessions@;
        let ghost mut k: int = 0;
        while self.sessions.len() > 0
            invariant
                0 <= k <= orig.len(),
                self.sessions@ == orig.skip(k),
                out@ == orig.take(k).map_values(|e: (String, S)| e.1),
            decreases self.sessions.len(),
        {
            let e = self.sessions.remove(0);
            out.push(e.1);
            proof {
                assert(orig.take(k + 1).map_values(|e: (String, S)| e.1) =~= orig.take(k).map_values(
                    |e: (String, S)| e.1,
                ).push(orig[k].1));
                k = k + 1;
                assert(self.sessions@ =~= orig.skip(k));
            }
        }
        assert(orig.take(k) =~= orig);
        assert(out@ =~= old(self)@.map_values(|e: (Seq<char>, S)| e.1));
        assert(self@ =~= Seq::<(Seq<char>, S)>::empty());
        out
    }
}

/// Once the session with an id is dropped, no session has that id, and ids stay
/// distinct.
proof fn lemma_without_drops_id<S>(v: Seq<(Seq<char>, S)>, id: Seq<char>)
    requires
        ids_distinct(v),
    ensures
        position_of(without(v, id).0, id) is None,
        ids_distinct(without(v, id).0),
{
    let w = without(v, id).0;
    match position_of(v, id) {
        None => {},
        Some(q) => {
            assert(w == v.remove(q));
            assert forall|i: int, j: int| 0 <= i < j < w.len() implies (#[trigger] w[i]).0 != (#[trigger] w[j]).0 by {
                let oi = if i < q { i } else { i + 1 };
                let oj = if j < q { j } else { j + 1 };
                assert(w[i] == v[oi]);
                assert(w[j] == v[oj]);
            }
            if exists|i: int| 0 <= i < w.len() && (#[trigger] w[i]).0 == id {
                let i = choose|i: int| 0 <= i < w.len() && (#[trigger] w[i]).0 == id;
                let oi = if i < q { i } else { i + 1 };
                assert(w[i] == v[oi]);
                assert(v[q].0 == id);
                if oi < q {
                    assert(v[oi].0 != v[q].0);
                } else {
                    assert(v[q].0 != v[oi].0);
                }
            }
        },
    }
}

/// Adding a session and then stopping it hands back the handle it was added with
/// and leaves the other sessions as they were after the add dropped any earlier
/// session with the same id.
pub proof fn lemma_add_then_stop<S>(v: Seq<(Seq<char>, S)>, id: Seq<char>, stopper: S)
    requires
        ids_distinct(v),
    ensures
        without(without(v, id).0.push((id, stopper)), id) == (without(v, id).0, Some(stopper)),
{
    lemma_without_drops_id(v, id);
    let w = without(v, id).0;
    let w1 = w.push((id, stopper));
    assert(w1[w.len() as int].0 == id);
    let p = position_of(w1, id);
    assert(p == Some(w.len() as int)) by {
        let c = choose|i: int| 0 <= i < w1.len() && (#[trigger] w1[i]).0 == id;
        if c < w.len() {
            assert(w1[c] == w[c]);
            assert(exists|i: int| 0 <= i < w.len() && (#[trigger] w[i]).0 == id);
        }
    }
    assert(w1.remove(w.len() as int) =~= w);
}

} // verus!
