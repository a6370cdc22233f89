//! Registry of live sessions and exit records of finished ones.
//!
//! Two maps, both keyed by session id: the live map holds at most one
//! session per id; the exit-record map holds the final snapshot of a
//! session until a new session is created under the same id. No id is
//! ever present in both maps at once.

use crate::buffer::concat_text;
use crate::buffer::stored;
use crate::errors::PtyError;
use crate::events::opt_text;
use crate::events::ExitEventModel;
use crate::events::PtyExitEvent;
use crate::session::after_kill_escalation;
use crate::session::after_kill_request;
use crate::session::banner_text;
use crate::session::EventMark;
use crate::session::PtyHandle;
use crate::session::TerminationKind;
use crate::text::lossy_text;
use crate::text::str_eq;
use vstd::prelude::*;

verus! {

/// First-match lookup in an association list keyed by string ids.
pub open spec fn lookup<V>(pairs: Seq<(String, V)>, id: Seq<char>) -> Option<V>
    decreases pairs.len(),
{
    if pairs.len() == 0 {
        None
    } else if pairs[0].0@ == id {
        Some(pairs[0].1)
    } else {
        lookup(pairs.drop_first(), id)
    }
}

/// All keys pairwise distinct.
pub open spec fn distinct_keys<V>(pairs: Seq<(String, V)>) -> bool {
    forall|i: int, j: int| 0 <= i < j < pairs.len() ==> pairs[i].0@ != pairs[j].0@
}

/// The ids of the entries, in registry order.
pub open spec fn ids_of<V>(pairs: Seq<(String, V)>) -> Seq<Seq<char>> {
    pairs.map_values(|p: (String, V)| p.0@)
}

proof fn lemma_no_match_lookup_none<V>(pairs: Seq<(String, V)>, id: Seq<char>)
    requires
        forall|j: int| 0 <= j < pairs.len() ==> pairs[j].0@ != id,
    ensures
        lookup(pairs, id) is None,
    decreases pairs.len(),
{
    if pairs.len() > 0 {
        lemma_no_match_lookup_none(pairs.drop_first(), id);
    }
}

proof fn lemma_lookup_none_no_match<V>(pairs: Seq<(String, V)>, id: Seq<char>)
    requires
        lookup(pairs, id) is None,
    ensures
        forall|j: int| 0 <= j < pairs.len() ==> pairs[j].0@ != id,
    decreases pairs.len(),
{
    if pairs.len() > 0 {
        lemma_lookup_none_no_match(pairs.drop_first(), id);
        assert forall|j: int| 0 <= j < pairs.len() implies pairs[j].0@ != id by {
            if j > 0 {
                assert(pairs.drop_first()[j - 1] == pairs[j]);
            }
        }
    }
}

proof fn lemma_remove_distinct<V>(pairs: Seq<(String, V)>, i: int)
    requires
        distinct_keys(pairs),
        0 <= i < pairs.len(),
    ensures
        distinct_keys(pairs.remove(i)),
    decreases pairs.len(),
{
    let r = pairs.remove(i);
    assert forall|a: int, b: int| 0 <= a < b < r.len() implies r[a].0@ != r[b].0@ by {
        let a0: int = if a < i {
            a
        } else {
            a + 1
        };
        let b0: int = if b < i {
            b
        } else {
            b + 1
        };
        assert(r[a] == pairs[a0]);
        assert(r[b] == pairs[b0]);
    }
}

proof fn lemma_update_same_key_distinct<V>(pairs: Seq<(String, V)>, i: int, p: (String, V))
    requires
        distinct_keys(pairs),
        0 <= i < pairs.len(),
        p.0@ == pairs[i].0@,
    ensures
        distinct_keys(pairs.update(i, p)),
{
    let r = pairs.update(i, p);
    assert forall|a: int, b: int| 0 <= a < b < r.len() implies r[a].0@ != r[b].0@ by {
        assert(r[a].0@ == pairs[a].0@);
        assert(r[b].0@ == pairs[b].0@);
    }
}

proof fn lemma_distinct_drop_first<V>(pairs: Seq<(String, V)>)
    requires
        distinct_keys(pairs),
        pairs.len() > 0,
    ensures
        distinct_keys(pairs.drop_first()),
{
    let rest = pairs.drop_first();
    assert forall|a: int, b: int| 0 <= a < b < rest.len() implies rest[a].0@ != rest[b].0@ by {
        assert(rest[a] == pairs[a + 1]);
        assert(rest[b] == pairs[b + 1]);
    }
}

proof fn lemma_first_match_lookup<V>(pairs: Seq<(String, V)>, id: Seq<char>, i: int)
    requires
        0 <= i < pairs.len(),
        pairs[i].0@ == id,
        forall|j: int| 0 <= j < i ==> pairs[j].0@ != id,
    ensures
        lookup(pairs, id) == Some(pairs[i].1),
    decreases pairs.len(),
{
    if i > 0 {
        assert forall|j: int| 0 <= j < i - 1 implies pairs.drop_first()[j].0@ != id by {
            assert(pairs.drop_first()[j] == pairs[j + 1]);
        }
        lemma_first_match_lookup(pairs.drop_first(), id, i - 1);
    }
}

proof fn lemma_lookup_some_index<V>(pairs: Seq<(String, V)>, id: Seq<char>)
    requires
        lookup(pairs, id) is Some,
    ensures
        exists|i: int|
            0 <= i < pairs.len() && pairs[i].0@ == id && pairs[i].1 == lookup(pairs, id)->0,
    decreases pairs.len(),
{
    if pairs.len() > 0 && pairs[0].0@ != id {
        lemma_lookup_some_index(pairs.drop_first(), id);
        let i = choose|i: int|
            0 <= i < pairs.drop_first().len() && pairs.drop_first()[i].0@ == id
                && pairs.drop_first()[i].1 == lookup(pairs.drop_first(), id)->0;
        assert(pairs[i + 1] == pairs.drop_first()[i]);
    }
}

proof fn lemma_lookup_push<V>(pairs: Seq<(String, V)>, p: (String, V), id: Seq<char>)
    ensures
        lookup(pairs.push(p), id) == if lookup(pairs, id) is Some {
            lookup(pairs, id)
        } else if p.0@ == id {
            Some(p.1)
        } else {
            None
        },
    decreases pairs.len(),
{
    if pairs.len() == 0 {
        assert(pairs.push(p).len() == 1);
        assert(pairs.push(p)[0] == p);
        assert(pairs.push(p).drop_first() =~= Seq::<(String, V)>::empty());
        assert(lookup(Seq::<(String, V)>::empty(), id) is None);
        if p.0@ == id {
            assert(lookup(pairs.push(p), id) == Some(p.1));
        } else {
            assert(lookup(pairs.push(p), id) is None);
        }
    } else {
        assert(pairs.push(p)[0] == pairs[0]);
        assert(pairs.push(p).drop_first() =~= pairs.drop_first().push(p));
        lemma_lookup_push(pairs.drop_first(), p, id);
    }
}

proof fn lemma_lookup_remove<V>(pairs: Seq<(String, V)>, i: int, id: Seq<char>)
    requires
        distinct_keys(pairs),
        0 <= i < pairs.len(),
    ensures
        lookup(pairs.remove(i), id) == if pairs[i].0@ == id {
            None::<V>
        } else {
            lookup(pairs, id)
        },
    decreases pairs.len(),
{
    if i == 0 {
        assert(pairs.remove(0) =~= pairs.drop_first());
        if pairs[0].0@ == id {
            let rest = pairs.drop_first();
            assert forall|j: int| 0 <= j < rest.len() implies rest[j].0@ != id by {
                assert(rest[j] == pairs[j + 1]);
            }
            lemma_no_match_lookup_none(rest, id);
        }
    } else {
        assert(pairs.remove(i).drop_first() =~= pairs.drop_first().remove(i - 1));
        lemma_distinct_drop_first(pairs);
        assert(pairs.drop_first()[i - 1] == pairs[i]);
        lemma_lookup_remove(pairs.drop_first(), i - 1, id);
        if pairs[0].0@ == id {
            assert(pairs[i].0@ != id);
            assert(pairs.remove(i)[0] == pairs[0]);
        } else {
            assert(pairs.remove(i)[0] == pairs[0]);
        }
    }
}

proof fn lemma_lookup_update<V>(pairs: Seq<(String, V)>, i: int, p: (String, V), id: Seq<char>)
    requires
        distinct_keys(pairs),
        0 <= i < pairs.len(),
        p.0@ == pairs[i].0@,
    ensures
        lookup(pairs.update(i, p), id) == if pairs[i].0@ == id {
            Some(p.1)
        } else {
            lookup(pairs, id)
        },
    decreases pairs.len(),
{
    if i == 0 {
        assert(pairs.update(0, p)[0] == p);
        assert(pairs.update(0, p).drop_first() =~= pairs.drop_first());
    } else {
        assert(pairs.update(i, p)[0] == pairs[0]);
        assert(pairs.update(i, p).drop_first() =~= pairs.drop_first().update(i - 1, p));
        lemma_distinct_drop_first(pairs);
        assert(pairs.drop_first()[i - 1] == pairs[i]);
        lemma_lookup_update(pairs.drop_first(), i - 1, p, id);
        if pairs[0].0@ == id {
            assert(pairs[i].0@ != id);
        }
    }
}

/// Finds the index of the entry under `id`, if any.
fn find_in<V>(pairs: &Vec<(String, V)>, id: &str) -> (r: Option<usize>)
    ensures
        match r {
            Some(i) => i < pairs@.len() && pairs@[i as int].0@ == id@ && lookup(pairs@, id@)
                == Some(pairs@[i as int].1),
            None => lookup(pairs@, id@) is None,
        },
{
    let n = pairs.len();
    let mut i: usize = 0;
    while i < n
        invariant
            i <= n,
            n == pairs@.len(),
            forall|j: int| 0 <= j < i ==> pairs@[j].0@ != id@,
        decreases n - i,
    {
        let p = &pairs[i];
        if str_eq(p.0.as_str(), id) {
            proof {
                lemma_first_match_lookup(pairs@, id@, i as int);
            }
            return Some(i);
        }
        i = i + 1;
    }
    proof {
        lemma_no_match_lookup_none(pairs@, id@);
    }
    None
}

proof fn lemma_update_session(
    live0: Seq<(String, PtyHandle)>,
    exited0: Seq<(String, PtyExitEvent)>,
    i: int,
    p: (String, PtyHandle),
)
    requires
        distinct_keys(live0),
        forall|a: int, b: int|
            0 <= a < live0.len() && 0 <= b < exited0.len() ==> live0[a].0@ != exited0[b].0@,
        forall|a: int|
            0 <= a < live0.len() ==> (#[trigger] live0[a]).1.wf() && live0[a].1.id@
                == live0[a].0@,
        0 <= i < live0.len(),
        p.0@ == live0[i].0@,
        p.1.wf(),
        p.1.id@ == p.0@,
    ensures
        distinct_keys(live0.update(i, p)),
        forall|k: Seq<char>|
            lookup(live0.update(i, p), k) == (if live0[i].0@ == k {
                Some(p.1)
            } else {
                lookup(live0, k)
            }),
        forall|a: int, b: int|
            0 <= a < live0.len() && 0 <= b < exited0.len() ==> live0.update(i, p)[a].0@
                != exited0[b].0@,
        forall|a: int|
            0 <= a < live0.len() ==> (#[trigger] live0.update(i, p)[a]).1.wf() && live0.update(
                i,
                p,
            )[a].1.id@ == live0.update(i, p)[a].0@,
{
    lemma_update_same_key_distinct(live0, i, p);
    assert forall|k: Seq<char>| true implies lookup(live0.update(i, p), k) == (if live0[i].0@
        == k {
        Some(p.1)
    } else {
        lookup(live0, k)
    }) by {
        lemma_lookup_update(live0, i, p, k);
    }
    assert forall|a: int, b: int|
        0 <= a < live0.len() && 0 <= b < exited0.len() implies live0.update(i, p)[a].0@
        != exited0[b].0@ by {
        assert(live0.update(i, p)[a].0@ == live0[a].0@);
    }
    assert forall|a: int| 0 <= a < live0.len() implies (#[trigger] live0.update(i, p)[a]).1.wf()
        && live0.update(i, p)[a].1.id@ == live0.update(i, p)[a].0@ by {
        if a != i {
            assert(live0.update(i, p)[a] == live0[a]);
        }
    }
}

/// The two maps of the session subsystem.
pub struct SessionRegistry {
    ptys: Vec<(String, PtyHandle)>,
    exited_ptys: Vec<(String, PtyExitEvent)>,
}

impl SessionRegistry {
    /// The live entries, in insertion order.
    pub closed spec fn live(self) -> Seq<(String, PtyHandle)> {
        self.ptys@
    }

    /// The retained exit records, in insertion order.
    pub closed spec fn exited(self) -> Seq<(String, PtyExitEvent)> {
        self.exited_ptys@
    }

    /// The live session under `id`, if any.
    pub open spec fn spec_session(self, id: Seq<char>) -> Option<PtyHandle> {
        lookup(self.live(), id)
    }

    /// The retained exit record under `id`, if any.
    pub open spec fn spec_exit_record(self, id: Seq<char>) -> Option<PtyExitEvent> {
        lookup(self.exited(), id)
    }

    /// The buffer text retrievable under `id`: the live session's retained
    /// output; after the session is gone, the exit record's final buffer;
    /// otherwise empty.
    pub open spec fn spec_buffer(self, id: Seq<char>) -> Seq<char> {
        match self.spec_session(id) {
            Some(s) => concat_text(s.buffer.chunks_seq()),
            None => match self.spec_exit_record(id) {
                Some(ev) => ev.buffer@,
                None => Seq::empty(),
            },
        }
    }

    /// Keys are unique within each map, absent from the other map, and
    /// every entry is a well-formed session or record filed under its own
    /// id.
    pub open spec fn wf(self) -> bool {
        &&& distinct_keys(self.live())
        &&& distinct_keys(self.exited())
        &&& forall|i: int, j: int|
            0 <= i < self.live().len() && 0 <= j < self.exited().len() ==> self.live()[i].0@
                != self.exited()[j].0@
        &&& forall|i: int|
            0 <= i < self.live().len() ==> (#[trigger] self.live()[i]).1.wf()
                && self.live()[i].1.id@ == self.live()[i].0@
        &&& forall|j: int|
            0 <= j < self.exited().len() ==> (#[trigger] self.exited()[j]).1@.id
                == self.exited()[j].0@
    }

    /// An empty registry.
    pub fn new() -> (r: Self)
        ensures
            r.wf(),
            r.live() == Seq::<(String, PtyHandle)>::empty(),
            r.exited() == Seq::<(String, PtyExitEvent)>::empty(),
    {
        SessionRegistry { ptys: Vec::new(), exited_ptys: Vec::new() }
    }

    /// Whether the session under `id` is live and still running; an
    /// unknown id is simply not running.
    pub fn is_running(&self, id: &str) -> (r: bool)
        ensures
            r == match self.spec_session(id@) {
                Some(s) => !s.exited,
                None => false,
            },
    {
        match find_in(&self.ptys, id) {
            Some(i) => self.ptys[i].1.is_running(),
            None => false,
        }
    }

    /// The buffer retrievable under `id`: live output, or the persisted
    /// exit-record buffer, or the empty string.
    pub fn get_buffer(&self, id: &str) -> (r: String)
        ensures
            r@ == self.spec_buffer(id@),
    {
        match find_in(&self.ptys, id) {
            Some(i) => self.ptys[i].1.buffer.buffered_output(),
            None => match find_in(&self.exited_ptys, id) {
                Some(i) => self.exited_ptys[i].1.buffer.clone(),
                None => String::new(),
            },
        }
    }

    /// A copy of the exit record under `id`, if one is retained.
    pub fn exit_event(&self, id: &str) -> (r: Option<PtyExitEvent>)
        ensures
            match r {
                Some(ev) => self.spec_exit_record(id@) matches Some(e) && ev@ == e@,
                None => self.spec_exit_record(id@) is None,
            },
    {
        match find_in(&self.exited_ptys, id) {
            Some(i) => Some(self.exited_ptys[i].1.clone()),
            None => None,
        }
    }

    /// Whether a write to the session under `id` may proceed.
    pub fn write_ready(&self, id: &str) -> (r: Result<(), PtyError>)
        ensures
            r == match self.spec_session(id@) {
                Some(s) => if s.writer_open {
                    Result::<(), PtyError>::Ok(())
                } else {
                    Result::<(), PtyError>::Err(PtyError::WriterClosed)
                },
                None => Result::<(), PtyError>::Err(PtyError::NotFound),
            },
    {
        match find_in(&self.ptys, id) {
            Some(i) => self.ptys[i].1.check_write(),
            None => Err(PtyError::NotFound),
        }
    }

    /// Whether a resize of the session under `id` may proceed.
    pub fn resize_ready(&self, id: &str) -> (r: Result<(), PtyError>)
        ensures
            r == match self.spec_session(id@) {
                Some(s) => if s.master_open {
                    Result::<(), PtyError>::Ok(())
                } else {
                    Result::<(), PtyError>::Err(PtyError::MasterClosed)
                },
                None => Result::<(), PtyError>::Err(PtyError::NotFound),
            },
    {
        match find_in(&self.ptys, id) {
            Some(i) => self.ptys[i].1.check_resize(),
            None => Err(PtyError::NotFound),
        }
    }

    /// The ids of all live sessions, in registry order.
    pub fn live_ids(&self) -> (r: Vec<String>)
        ensures
            r.deep_view() == ids_of(self.live()),
    {
        let mut r: Vec<String> = Vec::new();
        let n = self.ptys.len();
        let mut i: usize = 0;
        while i < n
            invariant
                i <= n,
                n == self.ptys@.len(),
                r.deep_view() == ids_of(self.ptys@).take(i as int),
            decreases n - i,
        {
            let ghost prefix = r.deep_view();
            let entry = self.ptys[i].0.clone();
            proof {
                assert(entry@ == self.ptys@[i as int].0@);
            }
            r.push(entry);
            proof {
                assert(ids_of(self.ptys@)[i as int] == self.ptys@[i as int].0@);
                assert(r.deep_view() =~~= prefix.push(self.ptys@[i as int].0@));
                assert(ids_of(self.ptys@).take(i as int + 1) =~~= ids_of(self.ptys@).take(
                    i as int,
                ).push(ids_of(self.ptys@)[i as int]));
                assert(r.deep_view() =~~= ids_of(self.ptys@).take(i as int + 1));
            }
            i = i + 1;
        }
        proof {
            assert(ids_of(self.ptys@).take(n as int) =~~= ids_of(self.ptys@));
        }
        r
    }

    /// Registers a fresh session under `id`. Rejects a duplicate id with
    /// `Conflict` and changes nothing; on success any stale exit record
    /// for the id is discarded, so the new session does not inherit a
    /// prior run's buffer.
    pub fn add_pty(&mut self, id: String, session: PtyHandle) -> (r: Result<(), PtyError>)
        requires
            old(self).wf(),
            session.wf(),
            session.id@ == id@,
        ensures
            final(self).wf(),
            old(self).spec_session(id@) is Some ==> r == Result::<(), PtyError>::Err(
                PtyError::Conflict,
            ) && *final(self) == *old(self),
            old(self).spec_session(id@) is None ==> {
                &&& r == Result::<(), PtyError>::Ok(())
                &&& final(self).spec_session(id@) == Some(session)
                &&& final(self).spec_exit_record(id@) is None
                &&& forall|k: Seq<char>|
                    k != id@ ==> final(self).spec_session(k) == old(self).spec_session(k)
                &&& forall|k: Seq<char>|
                    k != id@ ==> final(self).spec_exit_record(k) == old(self).spec_exit_record(
                        k,
                    )
            },
    {
        match find_in(&self.ptys, id.as_str()) {
            Some(_) => Err(PtyError::Conflict),
            None => {
                proof {
                    lemma_lookup_none_no_match(self.ptys@, id@);
                }
                let ghost exited0 = self.exited_ptys@;
                match find_in(&self.exited_ptys, id.as_str()) {
                    Some(i) => {
                        let _stale = self.exited_ptys.remove(i);
                        proof {
                            lemma_remove_distinct(exited0, i as int);
                            assert forall|k: Seq<char>| true implies lookup(
                                self.exited_ptys@,
                                k,
                            ) == if exited0[i as int].0@ == k {
                                None::<PtyExitEvent>
                            } else {
                                lookup(exited0, k)
                            } by {
                                lemma_lookup_remove(exited0, i as int, k);
                            }
                        }
                    },
                    None => {
                        proof {
                            lemma_lookup_none_no_match(exited0, id@);
                        }
                    },
                }
                proof {
                    assert(lookup(self.exited_ptys@, id@) is None);
                    lemma_lookup_none_no_match(self.exited_ptys@, id@);
                }
                let ghost live0 = self.ptys@;
                self.ptys.push((id, session));
                proof {
                    assert forall|k: Seq<char>| true implies lookup(self.ptys@, k) == (if lookup(
                        live0,
                        k,
                    ) is Some {
                        lookup(live0, k)
                    } else if id@ == k {
                        Some(session)
                    } else {
                        None::<PtyHandle>
                    }) by {
                        lemma_lookup_push(live0, (id, session), k);
                    }
                    assert(distinct_keys(self.ptys@)) by {
                        assert forall|a: int, b: int|
                            0 <= a < b < self.ptys@.len() implies self.ptys@[a].0@
                            != self.ptys@[b].0@ by {
                            if b < live0.len() {
                                assert(self.ptys@[a] == live0[a]);
                                assert(self.ptys@[b] == live0[b]);
                            } else {
                                assert(self.ptys@[a] == live0[a]);
                                assert(self.ptys@[b].0@ == id@);
                            }
                        }
                    }
                    assert forall|k: Seq<char>|
                        lookup(exited0, k) is None implies lookup(
                        self.exited_ptys@,
                        k,
                    ) is None by {}
                    assert forall|a: int, b: int|
                        0 <= a < self.ptys@.len() && 0 <= b < self.exited_ptys@.len()
                        implies self.ptys@[a].0@ != self.exited_ptys@[b].0@ by {
                        if a < live0.len() {
                            assert(self.ptys@[a] == live0[a]);
                            let k = live0[a].0@;
                            assert forall|j: int|
                                0 <= j < exited0.len() implies exited0[j].0@ != k by {}
                            lemma_no_match_lookup_none(exited0, k);
                            assert(lookup(self.exited_ptys@, k) is None);
                            lemma_lookup_none_no_match(self.exited_ptys@, k);
                        } else {
                            assert(self.ptys@[a].0@ == id@);
                        }
                    }
                    assert forall|a: int|
                        0 <= a < self.ptys@.len() implies (#[trigger] self.ptys@[a]).1.wf()
                        && self.ptys@[a].1.id@ == self.ptys@[a].0@ by {
                        if a < live0.len() {
                            assert(self.ptys@[a] == live0[a]);
                        } else {
                            assert(self.ptys@[a] == (id, session));
                        }
                    }
                    assert forall|j: int|
                        0 <= j < self.exited_ptys@.len() implies (#[trigger] self.exited_ptys@[
                        j]).1@.id == self.exited_ptys@[j].0@ by {
                        assert(self.exited_ptys@[j] == exited0[j] || self.exited_ptys@[j]
                            == exited0[j + 1]);
                    }
                    assert(final(self).wf());
                }
                Ok(())
            },
        }
    }

    /// Retires the session under `id`: removes it from the live map and
    /// retains `exit_event` as its record, atomically. Called exactly
    /// once per session, at teardown.
    pub fn remove_pty(&mut self, id: &str, exit_event: PtyExitEvent) -> (r: PtyHandle)
        requires
            old(self).wf(),
            old(self).spec_session(id@) is Some,
            exit_event@.id == id@,
        ensures
            final(self).wf(),
            Some(r) == old(self).spec_session(id@),
            final(self).spec_session(id@) is None,
            final(self).spec_exit_record(id@) == Some(exit_event),
            forall|k: Seq<char>|
                k != id@ ==> final(self).spec_session(k) == old(self).spec_session(k),
            forall|k: Seq<char>|
                k != id@ ==> final(self).spec_exit_record(k) == old(self).spec_exit_record(k),
    {
        let i = match find_in(&self.ptys, id) {
            Some(i) => i,
            None => unreached(),
        };
        let ghost live0 = self.ptys@;
        let ghost exited0 = self.exited_ptys@;
        let pair = self.ptys.remove(i);
        let key = id.to_owned();
        self.exited_ptys.push((key, exit_event));
        proof {
            lemma_remove_distinct(live0, i as int);
            assert forall|k: Seq<char>| true implies lookup(self.ptys@, k) == if k == id@ {
                None::<PtyHandle>
            } else {
                lookup(live0, k)
            } by {
                lemma_lookup_remove(live0, i as int, k);
            }
            assert forall|j: int| 0 <= j < exited0.len() implies exited0[j].0@ != id@ by {}
            assert forall|k: Seq<char>| true implies lookup(self.exited_ptys@, k) == if lookup(
                exited0,
                k,
            ) is Some {
                lookup(exited0, k)
            } else if k == id@ {
                Some(exit_event)
            } else {
                None::<PtyExitEvent>
            } by {
                lemma_lookup_push(exited0, (key, exit_event), k);
            }
            assert(lookup(exited0, id@) is None) by {
                lemma_no_match_lookup_none(exited0, id@);
            }
            assert(distinct_keys(self.exited_ptys@)) by {
                assert forall|a: int, b: int|
                    0 <= a < b < self.exited_ptys@.len() implies self.exited_ptys@[a].0@
                    != self.exited_ptys@[b].0@ by {
                    if b < exited0.len() {
                        assert(self.exited_ptys@[a] == exited0[a]);
                        assert(self.exited_ptys@[b] == exited0[b]);
                    } else {
                        assert(self.exited_ptys@[a] == exited0[a]);
                        assert(self.exited_ptys@[b].0@ == id@);
                    }
                }
            }
            assert forall|a: int, b: int|
                0 <= a < self.ptys@.len() && 0 <= b < self.exited_ptys@.len() implies self.ptys@[
                a].0@ != self.exited_ptys@[b].0@ by {
                let a0: int = if a < i {
                    a
                } else {
                    a + 1
                };
                assert(self.ptys@[a] == live0[a0]);
                if b < exited0.len() {
                    assert(self.exited_ptys@[b] == exited0[b]);
                } else {
                    assert(self.exited_ptys@[b].0@ == id@);
                    assert(live0[a0].0@ != id@);
                }
            }
            assert forall|a: int|
                0 <= a < self.ptys@.len() implies (#[trigger] self.ptys@[a]).1.wf()
                && self.ptys@[a].1.id@ == self.ptys@[a].0@ by {
                let a0: int = if a < i {
                    a
                } else {
                    a + 1
                };
                assert(self.ptys@[a] == live0[a0]);
            }
            assert forall|j: int|
                0 <= j < self.exited_ptys@.len() implies (#[trigger] self.exited_ptys@[j]).1@.id
                == self.exited_ptys@[j].0@ by {
                if j < exited0.len() {
                    assert(self.exited_ptys@[j] == exited0[j]);
                } else {
                    assert(self.exited_ptys@[j] == (key, exit_event));
                }
            }
            assert(final(self).wf());
        }
        pair.1
    }

    /// Tears down the streams of the session under `id`, the first step
    /// of teardown after the child exits.
    pub fn close_streams(&mut self, id: &str) -> (r: Result<(), PtyError>)
        requires
            old(self).wf(),
        ensures
            final(self).wf(),
            old(self).spec_session(id@) is None ==> r == Result::<(), PtyError>::Err(
                PtyError::NotFound,
            ) && *final(self) == *old(self),
            old(self).spec_session(id@) matches Some(s) ==> {
                &&& r == Result::<(), PtyError>::Ok(())
                &&& final(self).spec_session(id@) == Some(
                    (PtyHandle { writer_open: false, master_open: false, ..s }),
                )
                &&& forall|k: Seq<char>|
                    k != id@ ==> final(self).spec_session(k) == old(self).spec_session(k)
                &&& final(self).exited() == old(self).exited()
            },
    {
        match find_in(&self.ptys, id) {
            None => Err(PtyError::NotFound),
            Some(i) => {
                let ghost live0 = self.ptys@;
                let mut pair = self.ptys.remove(i);
                pair.1.close_streams();
                let ghost pair2 = pair;
                self.ptys.insert(i, pair);
                proof {
                    assert(self.ptys@ =~= live0.update(i as int, pair2));
                    lemma_update_session(live0, self.exited_ptys@, i as int, pair2);
                    assert(final(self).wf());
                }
                Ok(())
            },
        }
    }

    /// Takes one chunk of raw output read from the session under `id`:
    /// decodes it, retains it, records its data event, and returns the
    /// decoded chunk for emission. A missing or already finished session
    /// takes nothing.
    pub fn ingest_chunk(&mut self, id: &str, bytes: &[u8]) -> (r: Option<String>)
        requires
            old(self).wf(),
        ensures
            final(self).wf(),
            old(self).spec_session(id@) is None ==> r is None && *final(self) == *old(self),
            old(self).spec_session(id@) matches Some(s) ==> (s.exited ==> (r is None
                && *final(self) == *old(self))),
            old(self).spec_session(id@) matches Some(s) ==> !s.exited ==> {
                &&& r is Some
                &&& ({
                    let chunk = r->0;
                    let s2 = final(self).spec_session(id@)->0;
                    &&& final(self).spec_session(id@) is Some
                    &&& chunk@ == lossy_text(bytes@)
                    &&& s2.buffer.chunks_seq() == stored(s.buffer.chunks_seq(), chunk)
                    &&& s2.events@ == s.events@.push(EventMark::Data(chunk@))
                    &&& s2.id == s.id
                    &&& s2.invocation == s.invocation
                    &&& s2.process_id == s.process_id
                    &&& s2.termination == s.termination
                    &&& s2.exited == s.exited
                    &&& s2.writer_open == s.writer_open
                    &&& s2.master_open == s.master_open
                })
                &&& forall|k: Seq<char>|
                    k != id@ ==> final(self).spec_session(k) == old(self).spec_session(k)
                &&& final(self).exited() == old(self).exited()
            },
    {
        match find_in(&self.ptys, id) {
            None => None,
            Some(i) => {
                if !self.ptys[i].1.is_running() {
                    return None;
                }
                let ghost live0 = self.ptys@;
                let mut pair = self.ptys.remove(i);
                let chunk = pair.1.ingest_chunk(bytes);
                let ghost pair2 = pair;
                self.ptys.insert(i, pair);
                proof {
                    assert(self.ptys@ =~= live0.update(i as int, pair2));
                    lemma_update_session(live0, self.exited_ptys@, i as int, pair2);
                    assert(final(self).wf());
                }
                Some(chunk)
            },
        }
    }

    /// A kill request on the session under `id`: marks a live session
    /// stopped and returns whether the interrupt byte should be written;
    /// a finished session is left untouched.
    pub fn kill_request(&mut self, id: &str) -> (r: Result<bool, PtyError>)
        requires
            old(self).wf(),
        ensures
            final(self).wf(),
            old(self).spec_session(id@) is None ==> r == Result::<bool, PtyError>::Err(
                PtyError::NotFound,
            ) && *final(self) == *old(self),
            old(self).spec_session(id@) matches Some(s) ==> {
                &&& r == Result::<bool, PtyError>::Ok(!s.exited)
                &&& final(self).spec_session(id@) == Some(after_kill_request(s))
                &&& forall|k: Seq<char>|
                    k != id@ ==> final(self).spec_session(k) == old(self).spec_session(k)
                &&& final(self).exited() == old(self).exited()
            },
    {
        match find_in(&self.ptys, id) {
            None => Err(PtyError::NotFound),
            Some(i) => {
                let ghost live0 = self.ptys@;
                let mut pair = self.ptys.remove(i);
                let interrupt = pair.1.kill_requested();
                let ghost pair2 = pair;
                self.ptys.insert(i, pair);
                proof {
                    assert(self.ptys@ =~= live0.update(i as int, pair2));
                    lemma_update_session(live0, self.exited_ptys@, i as int, pair2);
                    assert(final(self).wf());
                }
                Ok(interrupt)
            },
        }
    }

    /// Escalation after the grace period elapsed without an exit: marks
    /// the session killed and returns the child's process identifier for
    /// unconditional termination. Only a session that is still running
    /// with a kill in progress is escalated; anything else is a no-op.
    pub fn kill_escalate(&mut self, id: &str) -> (r: Result<Option<u32>, PtyError>)
        requires
            old(self).wf(),
        ensures
            final(self).wf(),
            old(self).spec_session(id@) is None ==> r == Result::<Option<u32>, PtyError>::Err(
                PtyError::NotFound,
            ) && *final(self) == *old(self),
            old(self).spec_session(id@) matches Some(s) ==> ((s.exited || !(s.termination
                is Stopped)) ==> (r == Result::<Option<u32>, PtyError>::Ok(None)
                && *final(self) == *old(self))),
            old(self).spec_session(id@) matches Some(s) ==> (!s.exited && s.termination
                is Stopped) ==> {
                &&& r == Result::<Option<u32>, PtyError>::Ok(s.process_id)
                &&& final(self).spec_session(id@) == Some(after_kill_escalation(s))
                &&& forall|k: Seq<char>|
                    k != id@ ==> final(self).spec_session(k) == old(self).spec_session(k)
                &&& final(self).exited() == old(self).exited()
            },
    {
        match find_in(&self.ptys, id) {
            None => Err(PtyError::NotFound),
            Some(i) => {
                if !self.ptys[i].1.is_running() {
                    return Ok(None);
                }
                match self.ptys[i].1.termination {
                    TerminationKind::Stopped => {},
                    _ => {
                        return Ok(None);
                    },
                }
                let ghost live0 = self.ptys@;
                let mut pair = self.ptys.remove(i);
                let pid = pair.1.kill_escalated();
                let ghost pair2 = pair;
                self.ptys.insert(i, pair);
                proof {
                    assert(self.ptys@ =~= live0.update(i as int, pair2));
                    lemma_update_session(live0, self.exited_ptys@, i as int, pair2);
                    assert(final(self).wf());
                }
                Ok(pid)
            },
        }
    }

    /// Whether a session is live under `id`.
    pub fn contains(&self, id: &str) -> (r: bool)
        ensures
            r == (self.spec_session(id@) is Some),
    {
        match find_in(&self.ptys, id) {
            Some(_) => true,
            None => false,
        }
    }

    /// Seals the session under `id` once its child has exited and the
    /// reader has drained: appends the termination banner and returns it
    /// together with the exit record. The caller emits the banner as the
    /// final data event, then retires the session with [`Self::remove_pty`].
    pub fn finish_session(
        &mut self,
        id: &str,
        exit_code: Option<u32>,
        signal: Option<String>,
        success: bool,
        elapsed_secs: u64,
    ) -> (r: Result<(String, PtyExitEvent), PtyError>)
        requires
            old(self).wf(),
            old(self).spec_session(id@) matches Some(s) ==> !s.exited,
        ensures
            final(self).wf(),
            old(self).spec_session(id@) is None ==> r == Result::<
                (String, PtyExitEvent),
                PtyError,
            >::Err(PtyError::NotFound) && *final(self) == *old(self),
            old(self).spec_session(id@) matches Some(s) ==> {
                &&& r is Ok
                &&& ({
                    let banner = r->Ok_0.0;
                    let record = r->Ok_0.1;
                    let s2 = final(self).spec_session(id@)->0;
                    &&& final(self).spec_session(id@) is Some
                    &&& banner@ == banner_text(s.termination, elapsed_secs)
                    &&& s2.exited
                    &&& s2.buffer.chunks_seq() == stored(s.buffer.chunks_seq(), banner)
                    &&& s2.events@ == s.events@ + seq![
                        EventMark::Data(banner@),
                        EventMark::Exit,
                    ]
                    &&& s2.id == s.id
                    &&& s2.invocation == s.invocation
                    &&& s2.process_id == s.process_id
                    &&& s2.termination == s.termination
                    &&& record@ == (ExitEventModel {
                        id: s.id@,
                        invocation: s.invocation@,
                        buffer: concat_text(s2.buffer.chunks_seq()),
                        exit_code,
                        signal: opt_text(signal),
                        success,
                    })
                })
                &&& forall|k: Seq<char>|
                    k != id@ ==> final(self).spec_session(k) == old(self).spec_session(k)
                &&& final(self).exited() == old(self).exited()
            },
    {
        match find_in(&self.ptys, id) {
            None => Err(PtyError::NotFound),
            Some(i) => {
                let ghost live0 = self.ptys@;
                let mut pair = self.ptys.remove(i);
                let (banner, record) = pair.1.finish(exit_code, signal, success, elapsed_secs);
                let ghost pair2 = pair;
                self.ptys.insert(i, pair);
                proof {
                    assert(self.ptys@ =~= live0.update(i as int, pair2));
                    lemma_update_session(live0, self.exited_ptys@, i as int, pair2);
                    assert(final(self).wf());
                }
                Ok((banner, record))
            },
        }
    }
}

/// Never-in-both law: a well-formed registry never holds an id both as a
/// live session and as an exit record.
pub proof fn lemma_never_in_both(r: SessionRegistry, id: Seq<char>)
    requires
        r.wf(),
    ensures
        !(r.spec_session(id) is Some && r.spec_exit_record(id) is Some),
{
    if r.spec_session(id) is Some && r.spec_exit_record(id) is Some {
        lemma_lookup_some_index(r.live(), id);
        lemma_lookup_some_index(r.exited(), id);
    }
}

/// Restore-after-exit law: while an exit record for `id` is retained and
/// no session is live under `id`, the retrievable buffer is exactly the
/// record's final buffer.
pub proof fn lemma_restore_after_exit(r: SessionRegistry, id: Seq<char>, ev: PtyExitEvent)
    requires
        r.wf(),
        r.spec_session(id) is None,
        r.spec_exit_record(id) == Some(ev),
    ensures
        r.spec_buffer(id) == ev.buffer@,
{
}

/// Discard law: once a session is live under `id` again, the buffer read
/// under that id is the live session's, not any earlier record's.
pub proof fn lemma_buffer_of_live_session(r: SessionRegistry, id: Seq<char>, s: PtyHandle)
    requires
        r.wf(),
        r.spec_session(id) == Some(s),
    ensures
        r.spec_buffer(id) == concat_text(s.buffer.chunks_seq()),
{
}

} // verus!
