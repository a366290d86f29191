//! Process-wide session registry.
//!
//! The registry maps an opaque numeric session id to the record of one
//! platform session, and allocates ids from a single monotonically
//! increasing counter starting at 1. An id is never reused, even after the
//! session is killed. The host is expected to guard the registry with one
//! mutual-exclusion lock so that id allocation and map mutation are one
//! indivisible step; every operation here is a plain sequential function,
//! so holding the lock across a call gives exactly that atomicity.

use vstd::prelude::*;

use crate::errors::SessionError;

verus! {

/// Which OS primitive backs a session: a pseudo-terminal pair, or a child
/// process with piped standard input/output.
#[derive(Clone, Copy, Debug, PartialEq, Eq, Structural)]
pub enum SessionKind {
    Pty,
    Piped,
}

/// Per-session state kept by the registry.
///
/// `stop_requested` is the session's stop flag: it starts false and is set
/// exactly once, by `kill`, on the record handed back to the host (the
/// registry never stores a stopped record). `streaming` records whether an
/// output streamer has been attached.
#[derive(Clone, Copy, Debug, PartialEq, Eq, Structural)]
pub struct SessionRecord {
    pub id: u64,
    pub kind: SessionKind,
    pub stop_requested: bool,
    pub streaming: bool,
}

/// Outcome of the host's attempt to spawn the underlying pty/process.
/// Spawning is OS work and happens before the registry is touched, so that
/// on failure nothing is registered and the counter does not advance.
#[derive(Clone, Copy, Debug, PartialEq, Eq, Structural)]
pub enum SpawnOutcome {
    Spawned(SessionKind),
    Failed,
}

/// What the host must do to satisfy a resize request: set the pty's
/// dimensions, or nothing (piped sessions have no dimensions; resize is a
/// no-op reported as success).
#[derive(Clone, Copy, Debug, PartialEq, Eq, Structural)]
pub enum ResizeAction {
    SetSize { cols: u16, rows: u16 },
    NoOp,
}

/// The mathematical model of the registry contents: id to record.
pub open spec fn map_of(s: Seq<SessionRecord>) -> Map<u64, SessionRecord>
    decreases s.len(),
{
    if s.len() == 0 {
        Map::empty()
    } else {
        map_of(s.drop_last()).insert(s.last().id, s.last())
    }
}

/// No two stored records share an id.
pub open spec fn ids_unique(s: Seq<SessionRecord>) -> bool {
    forall|i: int, j: int| 0 <= i < j < s.len() ==> s[i].id != s[j].id
}

proof fn lemma_map_of_domain(s: Seq<SessionRecord>)
    ensures
        forall|id: u64|
            #[trigger] map_of(s).contains_key(id) <==> exists|i: int|
                0 <= i < s.len() && s[i].id == id,
    decreases s.len(),
{
    if s.len() > 0 {
        lemma_map_of_domain(s.drop_last());
        assert forall|id: u64| #[trigger] map_of(s).contains_key(id) implies exists|i: int|
            0 <= i < s.len() && s[i].id == id by {
            if id == s.last().id {
                assert(s[s.len() - 1].id == id);
            } else {
                assert(map_of(s.drop_last()).contains_key(id));
                let i = choose|i: int| 0 <= i < s.drop_last().len() && s.drop_last()[i].id == id;
                assert(s.drop_last()[i] == s[i]);
                assert(s[i].id == id);
            }
        }
        assert forall|id: u64|
            exists|i: int| 0 <= i < s.len() && s[i].id == id implies #[trigger] map_of(
            s,
        ).contains_key(id) by {
            let i = choose|i: int| 0 <= i < s.len() && s[i].id == id;
            if i < s.len() - 1 {
                assert(s.drop_last()[i] == s[i]);
                assert(0 <= i < s.drop_last().len() && s.drop_last()[i].id == id);
                assert(map_of(s.drop_last()).contains_key(id));
            }
        }
    }
}

proof fn lemma_map_of_index(s: Seq<SessionRecord>, i: int)
    requires
        ids_unique(s),
        0 <= i < s.len(),
    ensures
        map_of(s).contains_key(s[i].id),
        map_of(s)[s[i].id] == s[i],
    decreases s.len(),
{
    if i == s.len() - 1 {
    } else {
        assert(ids_unique(s.drop_last()));
        assert(s.drop_last()[i] == s[i]);
        lemma_map_of_index(s.drop_last(), i);
        assert(s[i].id != s.last().id);
    }
}

proof fn lemma_map_of_push(s: Seq<SessionRecord>, r: SessionRecord)
    ensures
        map_of(s.push(r)) == map_of(s).insert(r.id, r),
{
    assert(s.push(r).drop_last() =~= s);
    assert(s.push(r).last() == r);
}

proof fn lemma_map_of_remove(s: Seq<SessionRecord>, i: int)
    requires
        ids_unique(s),
        0 <= i < s.len(),
    ensures
        map_of(s.remove(i)) == map_of(s).remove(s[i].id),
    decreases s.len(),
{
    lemma_map_of_domain(s.drop_last());
    if i == s.len() - 1 {
        assert(s.remove(i) =~= s.drop_last());
        assert(!map_of(s.drop_last()).contains_key(s.last().id));
        assert(map_of(s.drop_last()) =~= map_of(s.drop_last()).insert(
            s.last().id,
            s.last(),
        ).remove(s.last().id));
    } else {
        assert(ids_unique(s.drop_last()));
        lemma_map_of_remove(s.drop_last(), i);
        assert(s.remove(i).drop_last() =~= s.drop_last().remove(i));
        assert(s.remove(i).last() == s.last());
        assert(s.drop_last()[i] == s[i]);
        assert(s[i].id != s.last().id);
        assert(map_of(s.remove(i)) == map_of(s.drop_last().remove(i)).insert(
            s.last().id,
            s.last(),
        ));
        assert(map_of(s.drop_last()).remove(s[i].id).insert(s.last().id, s.last()) =~= map_of(
            s.drop_last(),
        ).insert(s.last().id, s.last()).remove(s[i].id));
    }
}

proof fn lemma_map_of_update(s: Seq<SessionRecord>, i: int, r: SessionRecord)
    requires
        ids_unique(s),
        0 <= i < s.len(),
        r.id == s[i].id,
    ensures
        map_of(s.update(i, r)) == map_of(s).insert(r.id, r),
    decreases s.len(),
{
    if i == s.len() - 1 {
        assert(s.update(i, r).drop_last() =~= s.drop_last());
        assert(s.update(i, r).last() == r);
        assert(map_of(s.drop_last()).insert(s.last().id, s.last()).insert(r.id, r) =~= map_of(
            s.drop_last(),
        ).insert(r.id, r));
    } else {
        assert(ids_unique(s.drop_last()));
        assert(s.drop_last()[i] == s[i]);
        lemma_map_of_update(s.drop_last(), i, r);
        assert(s.update(i, r).drop_last() =~= s.drop_last().update(i, r));
        assert(s.update(i, r).last() == s.last());
        assert(s[i].id != s.last().id);
        assert(map_of(s.drop_last()).insert(r.id, r).insert(s.last().id, s.last()) =~= map_of(
            s.drop_last(),
        ).insert(s.last().id, s.last()).insert(r.id, r));
    }
}

/// Process-wide table of live sessions plus the next-id counter.
pub struct SessionRegistry {
    next_id: u64,
    entries: Vec<SessionRecord>,
}

impl SessionRegistry {
    /// Model: the contents as a map from id to record.
    pub closed spec fn sessions(self) -> Map<u64, SessionRecord> {
        map_of(self.entries@)
    }

    /// Model: the next id to be issued; every id ever issued is below it.
    pub closed spec fn counter(self) -> u64 {
        self.next_id
    }

    /// Whether `id` is currently registered (live, not yet killed).
    pub open spec fn contains(self, id: u64) -> bool {
        self.sessions().contains_key(id)
    }

    /// Representation invariant: ids are unique, every stored id was issued
    /// (is at least 1 and below the counter), no stored record has its stop
    /// flag set, and the counter starts no lower than 1.
    pub closed spec fn wf(self) -> bool {
        &&& 1 <= self.next_id
        &&& ids_unique(self.entries@)
        &&& forall|i: int|
            0 <= i < self.entries@.len() ==> 1 <= (#[trigger] self.entries@[i]).id
                < self.next_id
        &&& forall|i: int|
            0 <= i < self.entries@.len() ==> !(#[trigger] self.entries@[i]).stop_requested
    }

    /// What a well-formed registry guarantees of its model: every live id
    /// was issued (lies in `1 .. counter()`), each record is stored under
    /// its own id, and no live record has its stop flag set.
    pub proof fn lemma_wf_model(self)
        requires
            self.wf(),
        ensures
            1 <= self.counter(),
            forall|id: u64|
                #[trigger] self.sessions().contains_key(id) ==> 1 <= id < self.counter()
                    && self.sessions()[id].id == id && !self.sessions()[id].stop_requested,
    {
        lemma_map_of_domain(self.entries@);
        assert forall|id: u64| #[trigger] self.sessions().contains_key(id) implies 1 <= id
            < self.counter() && self.sessions()[id].id == id
            && !self.sessions()[id].stop_requested by {
            let i = choose|i: int| 0 <= i < self.entries@.len() && self.entries@[i].id == id;
            lemma_map_of_index(self.entries@, i);
        }
    }

    /// A fresh registry: no sessions, next id 1.
    pub fn new() -> (r: Self)
        ensures
            r.wf(),
            r.counter() == 1,
            r.sessions() == Map::<u64, SessionRecord>::empty(),
    {
        SessionRegistry { next_id: 1, entries: Vec::new() }
    }

    /// The id the next successful `create` will return; callers use it
    /// to rule out counter exhaustion before asking for a session.
    pub fn next_session_id(&self) -> (r: u64)
        ensures
            r == self.counter(),
    {
        self.next_id
    }

    fn find_index(&self, id: u64) -> (r: Option<usize>)
        ensures
            match r {
                Some(i) => i < self.entries@.len() && self.entries@[i as int].id == id,
                None => forall|i: int| 0 <= i < self.entries@.len() ==> self.entries@[i].id != id,
            },
    {
        let mut i: usize = 0;
        while i < self.entries.len()
            invariant
                i <= self.entries@.len(),
                forall|j: int| 0 <= j < i ==> self.entries@[j].id != id,
            decreases self.entries@.len() - i,
        {
            if self.entries[i].id == id {
                return Some(i);
            }
            i = i + 1;
        }
        None
    }

    /// Registers the outcome of one spawn attempt. On success the next id
    /// is allocated (the previous counter value) and a fresh record is
    /// stored under it; on spawn failure nothing is registered and the
    /// counter does not advance.
    pub fn create(&mut self, outcome: SpawnOutcome) -> (r: Result<u64, SessionError>)
        requires
            old(self).wf(),
            old(self).counter() < u64::MAX,
        ensures
            final(self).wf(),
            match outcome {
                SpawnOutcome::Spawned(kind) => {
                    &&& r == Ok::<u64, SessionError>(old(self).counter())
                    &&& create_ok_post(*old(self), *final(self), kind, old(self).counter())
                    &&& !old(self).contains(old(self).counter())
                },
                SpawnOutcome::Failed => {
                    &&& r == Err::<u64, SessionError>(SessionError::SpawnFailure)
                    &&& final(self).sessions() == old(self).sessions()
                    &&& final(self).counter() == old(self).counter()
                },
            },
    {
        match outcome {
            SpawnOutcome::Spawned(kind) => {
                let id = self.next_id;
                let record = SessionRecord { id, kind, stop_requested: false, streaming: false };
                proof {
                    self.lemma_wf_model();
                    lemma_map_of_push(self.entries@, record);
                }
                self.entries.push(record);
                self.next_id = id + 1;
                Ok(id)
            },
            SpawnOutcome::Failed => Err(SessionError::SpawnFailure),
        }
    }

    /// Looks the id up without changing anything.
    pub fn get(&self, id: u64) -> (r: Result<SessionRecord, SessionError>)
        requires
            self.wf(),
        ensures
            self.contains(id) ==> r == Ok::<SessionRecord, SessionError>(self.sessions()[id]),
            !self.contains(id) ==> r == Err::<SessionRecord, SessionError>(SessionError::NotFound),
    {
        proof {
            lemma_map_of_domain(self.entries@);
        }
        match self.find_index(id) {
            Some(i) => {
                proof {
                    lemma_map_of_index(self.entries@, i as int);
                }
                Ok(self.entries[i])
            },
            None => Err(SessionError::NotFound),
        }
    }

    /// Routes a write request: on a live id, the host must deliver the
    /// bytes to the returned variant's input (pty master, or child stdin),
    /// serialized per session; on any other id the write is refused.
    pub fn write(&self, id: u64) -> (r: Result<SessionKind, SessionError>)
        requires
            self.wf(),
        ensures
            self.contains(id) ==> r == Ok::<SessionKind, SessionError>(self.sessions()[id].kind),
            !self.contains(id) ==> r == Err::<SessionKind, SessionError>(SessionError::NotFound),
    {
        match self.get(id) {
            Ok(record) => Ok(record.kind),
            Err(e) => Err(e),
        }
    }

    /// Routes a resize request: on a pty-backed session the host must set
    /// the pty to the given dimensions (pixel dimensions fixed at 0); on a
    /// piped session there are no dimensions to change and the request is
    /// a successful no-op; on any other id the request is refused.
    pub fn resize(&self, id: u64, cols: u16, rows: u16) -> (r: Result<ResizeAction, SessionError>)
        requires
            self.wf(),
        ensures
            self.contains(id) && self.sessions()[id].kind is Pty ==> r == Ok::<
                ResizeAction,
                SessionError,
            >(ResizeAction::SetSize { cols, rows }),
            self.contains(id) && self.sessions()[id].kind is Piped ==> r == Ok::<
                ResizeAction,
                SessionError,
            >(ResizeAction::NoOp),
            !self.contains(id) ==> r == Err::<ResizeAction, SessionError>(SessionError::NotFound),
    {
        match self.get(id) {
            Ok(record) => match record.kind {
                SessionKind::Pty => Ok(ResizeAction::SetSize { cols, rows }),
                SessionKind::Piped => Ok(ResizeAction::NoOp),
            },
            Err(e) => Err(e),
        }
    }

    /// Atomically detaches the id from the table and hands its record
    /// back; the counter is untouched, so the id is never issued again.
    pub fn remove(&mut self, id: u64) -> (r: Result<SessionRecord, SessionError>)
        requires
            old(self).wf(),
        ensures
            final(self).wf(),
            final(self).counter() == old(self).counter(),
            old(self).contains(id) ==> {
                &&& r == Ok::<SessionRecord, SessionError>(old(self).sessions()[id])
                &&& final(self).sessions() == old(self).sessions().remove(id)
            },
            !old(self).contains(id) ==> {
                &&& r == Err::<SessionRecord, SessionError>(SessionError::NotFound)
                &&& final(self).sessions() == old(self).sessions()
            },
    {
        proof {
            lemma_map_of_domain(self.entries@);
        }
        match self.find_index(id) {
            Some(i) => {
                proof {
                    lemma_map_of_index(self.entries@, i as int);
                    lemma_map_of_remove(self.entries@, i as int);
                    assert forall|a: int, b: int|
                        0 <= a < b < self.entries@.remove(i as int).len() implies self.entries@.remove(
                        i as int,
                    )[a].id != self.entries@.remove(i as int)[b].id by {
                        let s = self.entries@;
                        if a < i && b < i {
                            assert(s[a].id != s[b].id);
                        } else if a < i {
                            assert(s[a].id != s[b + 1].id);
                        } else {
                            assert(s[a + 1].id != s[b + 1].id);
                        }
                    }
                }
                let record = self.entries.remove(i);
                Ok(record)
            },
            None => Err(SessionError::NotFound),
        }
    }

    /// Kills a session: the id is removed from the table, the record's
    /// stop flag is set (exactly once: no stored record has it set), and
    /// the record is handed back so the host can signal the streaming task
    /// and force-terminate the underlying pty/process. On an id that is
    /// absent — never issued, or already killed — nothing changes and the
    /// call reports `NotFound`.
    pub fn kill(&mut self, id: u64) -> (r: Result<SessionRecord, SessionError>)
        requires
            old(self).wf(),
        ensures
            final(self).wf(),
            final(self).counter() == old(self).counter(),
            old(self).contains(id) ==> {
                &&& kill_ok_post(*old(self), *final(self), id)
                &&& r == Ok::<SessionRecord, SessionError>(
                    SessionRecord { stop_requested: true, ..old(self).sessions()[id] },
                )
                &&& !old(self).sessions()[id].stop_requested
            },
            !old(self).contains(id) ==> {
                &&& r == Err::<SessionRecord, SessionError>(SessionError::NotFound)
                &&& final(self).sessions() == old(self).sessions()
            },
    {
        proof {
            if old(self).contains(id) {
                old(self).lemma_wf_model();
            }
        }
        match self.remove(id) {
            Ok(record) => {
                let stopped = SessionRecord { stop_requested: true, ..record };
                Ok(stopped)
            },
            Err(e) => Err(e),
        }
    }

    /// Attaches the output streamer to a live session: marks it streaming
    /// and reports which variant backs it, so the host can make the
    /// matching reader (a clone of the pty master, or the child's guarded
    /// stdout). On an absent id nothing changes and the call reports
    /// `NotFound`.
    pub fn start_streaming(&mut self, id: u64) -> (r: Result<SessionKind, SessionError>)
        requires
            old(self).wf(),
        ensures
            final(self).wf(),
            final(self).counter() == old(self).counter(),
            old(self).contains(id) ==> {
                &&& r == Ok::<SessionKind, SessionError>(old(self).sessions()[id].kind)
                &&& final(self).sessions() == old(self).sessions().insert(
                    id,
                    SessionRecord { streaming: true, ..old(self).sessions()[id] },
                )
            },
            !old(self).contains(id) ==> {
                &&& r == Err::<SessionKind, SessionError>(SessionError::NotFound)
                &&& final(self).sessions() == old(self).sessions()
            },
    {
        proof {
            lemma_map_of_domain(self.entries@);
        }
        match self.find_index(id) {
            Some(i) => {
                let record = self.entries[i];
                let updated = SessionRecord { streaming: true, ..record };
                proof {
                    lemma_map_of_index(self.entries@, i as int);
                    lemma_map_of_update(self.entries@, i as int, updated);
                    assert forall|a: int, b: int|
                        0 <= a < b < self.entries@.update(i as int, updated).len() implies self.entries@.update(
                        i as int,
                        updated,
                    )[a].id != self.entries@.update(i as int, updated)[b].id by {
                        assert(self.entries@[a].id != self.entries@[b].id);
                    }
                }
                self.entries.set(i, updated);
                Ok(record.kind)
            },
            None => Err(SessionError::NotFound),
        }
    }
}

/// The transition one successful `create` makes: the returned id is the
/// counter's previous value, the counter advances by exactly one, and the
/// table gains exactly the fresh record under that id.
pub open spec fn create_ok_post(
    pre: SessionRegistry,
    post: SessionRegistry,
    kind: SessionKind,
    id: u64,
) -> bool {
    &&& id == pre.counter()
    &&& post.counter() == pre.counter() + 1
    &&& post.sessions() == pre.sessions().insert(
        id,
        SessionRecord { id, kind, stop_requested: false, streaming: false },
    )
}

/// The transition one successful `kill` makes: the id is gone from the
/// table and the counter is untouched.
pub open spec fn kill_ok_post(pre: SessionRegistry, post: SessionRegistry, id: u64) -> bool {
    &&& pre.contains(id)
    &&& post.sessions() == pre.sessions().remove(id)
    &&& post.counter() == pre.counter()
}

/// The transition one successful `start_streaming` makes: the session is
/// marked streaming, nothing else moves.
pub open spec fn stream_ok_post(pre: SessionRegistry, post: SessionRegistry, id: u64) -> bool {
    &&& pre.contains(id)
    &&& post.sessions() == pre.sessions().insert(
        id,
        SessionRecord { streaming: true, ..pre.sessions()[id] },
    )
    &&& post.counter() == pre.counter()
}

/// One registry operation, as the contracts above describe it: a
/// successful create, kill, or start_streaming, or an operation that left
/// the model unchanged (a lookup, or any refused call).
pub open spec fn registry_step(pre: SessionRegistry, post: SessionRegistry) -> bool {
    ||| exists|kind: SessionKind, id: u64| create_ok_post(pre, post, kind, id)
    ||| exists|id: u64| kill_ok_post(pre, post, id)
    ||| exists|id: u64| stream_ok_post(pre, post, id)
    ||| post.sessions() == pre.sessions() && post.counter() == pre.counter()
}

/// Law: successful `create` calls made one after another return
/// consecutive ids with no gaps or repeats; from a fresh registry (whose
/// counter is 1) they are exactly 1, 2, 3, ….
pub proof fn lemma_sequential_create_ids(
    regs: Seq<SessionRegistry>,
    kinds: Seq<SessionKind>,
    ids: Seq<u64>,
)
    requires
        regs.len() == ids.len() + 1,
        kinds.len() == ids.len(),
        forall|i: int|
            0 <= i < ids.len() ==> create_ok_post(regs[i], regs[i + 1], kinds[i], ids[i]),
    ensures
        forall|i: int| 0 <= i < ids.len() ==> ids[i] == regs[0].counter() + i,
    decreases ids.len(),
{
    if ids.len() > 0 {
        assert(create_ok_post(regs[0], regs[1], kinds[0], ids[0]));
        assert forall|i: int| 0 <= i < ids.drop_first().len() implies create_ok_post(
            regs.drop_first()[i],
            regs.drop_first()[i + 1],
            kinds.drop_first()[i],
            ids.drop_first()[i],
        ) by {
            assert(create_ok_post(regs[i + 1], regs[i + 2], kinds[i + 1], ids[i + 1]));
        }
        lemma_sequential_create_ids(regs.drop_first(), kinds.drop_first(), ids.drop_first());
        assert forall|i: int| 0 <= i < ids.len() implies ids[i] == regs[0].counter() + i by {
            if i > 0 {
                assert(ids.drop_first()[i - 1] == regs.drop_first()[0].counter() + (i - 1));
            }
        }
    }
}

proof fn lemma_counter_strictly_increasing(pres: Seq<SessionRegistry>, i: int, j: int)
    requires
        forall|k: int|
            0 <= k && k + 1 < pres.len() ==> (#[trigger] pres[k]).counter() < pres[
                k + 1
            ].counter(),
        0 <= i < j < pres.len(),
    ensures
        pres[i].counter() < pres[j].counter(),
    decreases j - i,
{
    if i + 1 < j {
        lemma_counter_strictly_increasing(pres, i, j - 1);
    }
}

/// Law: however N concurrent `create` calls interleave, the N ids they
/// return are pairwise distinct. The registry's lock serializes the calls
/// in some order; `pres[i]` is the state the i-th call (in that order)
/// saw. Each call returns the counter it saw and leaves the counter
/// strictly larger, and no operation between two calls ever decreases the
/// counter — hence the hypothesis, and hence no duplicate allocation.
pub proof fn lemma_concurrent_create_ids_distinct(pres: Seq<SessionRegistry>, ids: Seq<u64>)
    requires
        pres.len() == ids.len(),
        forall|i: int| 0 <= i < ids.len() ==> ids[i] == pres[i].counter(),
        forall|i: int|
            0 <= i && i + 1 < pres.len() ==> (#[trigger] pres[i]).counter() < pres[
                i + 1
            ].counter(),
    ensures
        forall|i: int, j: int| 0 <= i < j < ids.len() ==> ids[i] != ids[j],
{
    assert forall|i: int, j: int| 0 <= i < j < ids.len() implies ids[i] != ids[j] by {
        lemma_counter_strictly_increasing(pres, i, j);
    }
}

/// Law: an id never issued — 0, or at least the counter — is not live, so
/// `get`, `write`, `resize`, `remove` and `kill` all report `NotFound`
/// against it (their contracts on an id that is not live).
pub proof fn lemma_never_issued_not_live(reg: SessionRegistry, id: u64)
    requires
        reg.wf(),
        id == 0 || id >= reg.counter(),
    ensures
        !reg.contains(id),
{
    reg.lemma_wf_model();
}

/// Law: once `kill(id)` succeeds, the id is not live and lies below the
/// counter, so by `lemma_dead_id_stays_dead` no later operation ever sees
/// it live again: a subsequent `write`, `resize`, or second `kill` on it
/// reports `NotFound` (their contracts), and the second `kill` changes
/// nothing — it is a safe no-op, never a double release.
pub proof fn lemma_kill_forecloses_id(pre: SessionRegistry, post: SessionRegistry, id: u64)
    requires
        pre.wf(),
        kill_ok_post(pre, post, id),
    ensures
        !post.contains(id),
        id < post.counter(),
{
    pre.lemma_wf_model();
}

/// Law: an id that is not live and lies below the counter stays that way
/// across every registry operation: `create` only adds the counter's
/// current value (which is and stays above `id`), `kill` only removes,
/// and nothing else changes which ids are live.
pub proof fn lemma_dead_id_stays_dead(pre: SessionRegistry, post: SessionRegistry, id: u64)
    requires
        !pre.contains(id),
        id < pre.counter(),
        registry_step(pre, post),
    ensures
        !post.contains(id),
        id < post.counter(),
{
}

/// Law: the previous fact, carried along a whole run: once dead (not
/// live, below the counter), an id is dead in every later state of any
/// chain of registry operations.
pub proof fn lemma_dead_id_stays_dead_chain(states: Seq<SessionRegistry>, id: u64)
    requires
        states.len() >= 1,
        !states[0].contains(id),
        id < states[0].counter(),
        forall|i: int|
            0 <= i && i + 1 < states.len() ==> registry_step(
                #[trigger] states[i],
                states[i + 1],
            ),
    ensures
        forall|i: int| 0 <= i < states.len() ==> !states[i].contains(id),
    decreases states.len(),
{
    if states.len() > 1 {
        lemma_dead_id_stays_dead(states[0], states[1], id);
        assert forall|i: int|
            0 <= i && i + 1 < states.drop_first().len() implies registry_step(
            #[trigger] states.drop_first()[i],
            states.drop_first()[i + 1],
        ) by {
            assert(registry_step(states[i + 1], states[i + 2]));
        }
        lemma_dead_id_stays_dead_chain(states.drop_first(), id);
        assert forall|i: int| 0 <= i < states.len() implies !states[i].contains(id) by {
            if i > 0 {
                assert(!states.drop_first()[i - 1].contains(id));
            }
        }
    }
}

} // verus!
