//! The recording pool: the recording requests being served, and how the
//! pool answers control messages and the end of recording tasks.
use vstd::prelude::*;
use std::collections::{HashMap, HashSet};
use crate::program::{
    RecExitType,
    RecordControlMessage,
    RecordingTaskDescription,
    clone_description,
    program_eq,
    same_description,
    same_program,
};

verus! {

broadcast use vstd::std_specs::hash::group_hash_axioms;

#[verifier::external_type_specification]
#[verifier::external_body]
#[verifier::reject_recursive_types(K)]
#[verifier::reject_recursive_types(V)]
#[verifier::reject_recursive_types(H)]
pub struct ExLockfreeMap<K, V, H>(lockfree::map::Map<K, V, H>);

/// A lock-free map from keys to recording requests.
pub type PoolMap = lockfree::map::Map<i64, RecordingTaskDescription>;

/// The entries of a `lockfree::map::Map` of recording requests.
pub uninterp spec fn pool_entries(m: PoolMap) -> Map<i64, RecordingTaskDescription>;

/// `lockfree::map::Map::new`: a map with no entries.
#[verifier::external_body]
fn pool_map_new() -> (r: PoolMap)
    ensures
        pool_entries(r).dom().is_empty(),
{
    lockfree::map::Map::new()
}

/// `lockfree::map::Map::insert`: the key now maps to the value, replacing
/// an earlier entry for it.
#[verifier::external_body]
fn pool_map_insert(
    m: &mut PoolMap,
    key: i64,
    val: RecordingTaskDescription,
)
    ensures
        pool_entries(*final(m)) == pool_entries(*old(m)).insert(key, val),
{
    m.insert(key, val);
}

/// `lockfree::map::Map::remove`: the entry for the key is gone; the result
/// tells whether there was one.
#[verifier::external_body]
fn pool_map_remove(m: &mut PoolMap, key: i64) -> (r: bool)
    ensures
        r == pool_entries(*old(m)).contains_key(key),
        pool_entries(*final(m)) == pool_entries(*old(m)).remove(key),
{
    m.remove(&key).is_some()
}

/// `lockfree::map::Map::get`, copying the value out: present exactly when
/// the key has an entry, and then a copy of it.
#[verifier::external_body]
fn pool_map_get(m: &PoolMap, key: i64) -> (r: Option<RecordingTaskDescription>)
    ensures
        r is Some == pool_entries(*m).contains_key(key),
        r matches Some(d) ==> same_description(d, pool_entries(*m)[key]),
{
    m.get(&key).map(|g| clone_description(g.val()))
}

/// The recording requests being served, by key (the programme id when a
/// control message adds one, the event id when a task registers itself).
pub struct RecPool {
    map: PoolMap,
}

impl View for RecPool {
    type V = Map<i64, RecordingTaskDescription>;

    closed spec fn view(&self) -> Map<i64, RecordingTaskDescription> {
        pool_entries(self.map)
    }
}

/// What the pool driver does after a control message.
#[derive(Debug)]
pub enum PoolAction {
    /// The programme is already being recorded; its request was replaced.
    Overwritten,
    /// Start a recording task for this request.
    Start(RecordingTaskDescription),
    /// The programme is already being recorded; nothing to do.
    AlreadyRecording,
    /// The request with the given id was removed (`true`) or was not there.
    Removed(bool),
}

/// The request `info` is served under the programme's id with the same programme.
pub open spec fn serves_same(pool: Map<i64, RecordingTaskDescription>, info: RecordingTaskDescription) -> bool {
    pool.contains_key(info.program.id) && same_program(pool[info.program.id].program, info.program)
}

/// The pool after `key` maps to a request that agrees with `d`.
pub open spec fn updated_with(
    before: Map<i64, RecordingTaskDescription>,
    after: Map<i64, RecordingTaskDescription>,
    key: i64,
    d: RecordingTaskDescription,
) -> bool {
    &&& after.dom() == before.dom().insert(key)
    &&& same_description(after[key], d)
    &&& forall|k: i64| k != key && before.contains_key(k) ==> #[trigger] after[k] == before[k]
}

impl RecPool {
    /// An empty pool.
    pub fn new() -> (p: RecPool)
        ensures
            p@ == Map::<i64, RecordingTaskDescription>::empty(),
    {
        RecPool { map: pool_map_new() }
    }

    /// A copy of the request served under `key`.
    pub fn lookup(&self, key: i64) -> (r: Option<RecordingTaskDescription>)
        ensures
            r is Some == self@.contains_key(key),
            r matches Some(d) ==> same_description(d, self@[key]),
    {
        pool_map_get(&self.map, key)
    }

    /// Whether a request is served under `key`.
    pub fn contains(&self, key: i64) -> (r: bool)
        ensures
            r == self@.contains_key(key),
    {
        self.lookup(key).is_some()
    }

    /// Serves `info` under `key`, replacing what was there.
    pub fn put(&mut self, key: i64, info: RecordingTaskDescription)
        ensures
            final(self)@ == old(self)@.insert(key, info),
    {
        pool_map_insert(&mut self.map, key, info);
    }

    /// Stops serving the request under `key`, giving back a copy of it.
    pub fn take(&mut self, key: i64) -> (r: Option<RecordingTaskDescription>)
        ensures
            final(self)@ == old(self)@.remove(key),
            r is Some == old(self)@.contains_key(key),
            r matches Some(d) ==> same_description(d, old(self)@[key]),
    {
        let r = pool_map_get(&self.map, key);
        pool_map_remove(&mut self.map, key);
        r
    }

    /// Answers a control message. `CreateOrUpdate` replaces the request of
    /// a programme already served under its id with the same programme data,
    /// and otherwise asks for a new task; `TryCreate` asks for a new task
    /// unless something is served under the programme's id; `Remove` stops
    /// serving the id.
    pub fn handle_message(&mut self, msg: RecordControlMessage) -> (a: PoolAction)
        ensures
            match msg {
                RecordControlMessage::CreateOrUpdate(info) => if serves_same(old(self)@, info) {
                    a is Overwritten && final(self)@ == old(self)@.insert(info.program.id, info)
                } else {
                    a matches PoolAction::Start(d) && same_description(d, info) && final(self)@
                        == old(self)@
                },
                RecordControlMessage::TryCreate(info) => if old(self)@.contains_key(
                    info.program.id,
                ) {
                    a is AlreadyRecording && final(self)@ == old(self)@
                } else {
                    a matches PoolAction::Start(d) && same_description(d, info) && final(self)@
                        == old(self)@
                },
                RecordControlMessage::Remove(id) => a == PoolAction::Removed(
                    old(self)@.contains_key(id),
                ) && final(self)@ == old(self)@.remove(id),
            },
    {
        match msg {
            RecordControlMessage::CreateOrUpdate(info) => {
                let same = match self.lookup(info.program.id) {
                    Some(d) => program_eq(&d.program, &info.program),
                    None => false,
                };
                if same {
                    let id = info.program.id;
                    self.put(id, info);
                    PoolAction::Overwritten
                } else {
                    PoolAction::Start(info)
                }
            },
            RecordControlMessage::TryCreate(info) => {
                if self.contains(info.program.id) {
                    PoolAction::AlreadyRecording
                } else {
                    PoolAction::Start(info)
                }
            },
            RecordControlMessage::Remove(id) => {
                let removed = self.take(id).is_some();
                PoolAction::Removed(removed)
            },
        }
    }

    /// A new task registers its request under the programme's event id;
    /// `false`, with nothing changed, when that key is taken.
    pub fn register_task(&mut self, info: &RecordingTaskDescription) -> (ok: bool)
        ensures
            ok == !old(self)@.contains_key(info.program.event_id as i64),
            ok ==> updated_with(old(self)@, final(self)@, info.program.event_id as i64, *info),
            !ok ==> final(self)@ == old(self)@,
    {
        let key = info.program.event_id as i64;
        if self.contains(key) {
            return false;
        }
        let ghost before = self@;
        let copy = clone_description(info);
        self.put(key, copy);
        proof {
            assert(self@.dom() =~= before.dom().insert(key));
        }
        true
    }
}

/// Taking a task's request out of the pool undoes its registration: when
/// `register_task` put a copy of `d` under a key that was free, taking that
/// key out gives back exactly the earlier pool.
pub proof fn law_take_undoes_register(
    before: Map<i64, RecordingTaskDescription>,
    after: Map<i64, RecordingTaskDescription>,
    key: i64,
    d: RecordingTaskDescription,
)
    requires
        !before.contains_key(key),
        updated_with(before, after, key, d),
    ensures
        after.contains_key(key),
        same_description(after[key], d),
        after.remove(key) == before,
{
    assert(after.remove(key) =~= before);
}

/// What follows the end of a recording task.
#[derive(Debug)]
pub enum ExitFollowUp {
    /// Nothing more to do.
    Done,
    /// Record the relayed event with this request.
    Relay(RecordingTaskDescription),
    /// An outcome the pool does not expect from a task.
    Unexpected,
}

/// The request for the relay target: the removed request, now naming the
/// event (network, service, event) to record.
pub open spec fn relay_request(d: RecordingTaskDescription, nid: i64, sid: i64, eid: i64) -> RecordingTaskDescription {
    RecordingTaskDescription { id_override: Some((nid, sid, eid)), ..d }
}

/// The follow-up of a task that ended with `outcome` (`None`: it failed),
/// its request `removed` having been taken out of the pool: a relay starts
/// a task for the next event if the request was still there; an abort, a
/// success and a failure need nothing more; any other outcome is unexpected.
pub fn after_exit(outcome: Option<RecExitType>, removed: Option<RecordingTaskDescription>) -> (r:
    ExitFollowUp)
    ensures
        match outcome {
            Some(RecExitType::Aborted(_)) | Some(RecExitType::Success(_)) | None => r is Done,
            Some(RecExitType::Continue(nid, sid, eid, _)) => match removed {
                Some(d) => r matches ExitFollowUp::Relay(n) && same_description(
                    n,
                    relay_request(d, nid, sid, eid),
                ),
                None => r is Unexpected,
            },
            _ => r is Unexpected,
        },
{
    match outcome {
        Some(RecExitType::Aborted(_)) | Some(RecExitType::Success(_)) | None => ExitFollowUp::Done,
        Some(RecExitType::Continue(nid, sid, eid, _)) => match removed {
            Some(d) => {
                let mut n = clone_description(&d);
                n.id_override = Some((nid, sid, eid));
                ExitFollowUp::Relay(n)
            },
            None => ExitFollowUp::Unexpected,
        },
        _ => ExitFollowUp::Unexpected,
    }
}

/// Recording requests by programme id, beside the ids whose running task
/// holds a stop handle: the driver spawns a task when told to and keeps its
/// handle, and signals the handle when the queue gives the id up.
pub struct RecTaskQueue {
    inner: HashMap<i64, RecordingTaskDescription>,
    handles: HashSet<i64>,
}

impl RecTaskQueue {
    /// The requests, by programme id.
    pub closed spec fn requests(&self) -> Map<i64, RecordingTaskDescription> {
        self.inner@
    }

    /// The ids whose task holds a stop handle.
    pub closed spec fn running(&self) -> Set<i64> {
        self.handles@
    }

    /// An empty queue.
    pub fn new() -> (q: RecTaskQueue)
        ensures
            q.requests() == Map::<i64, RecordingTaskDescription>::empty(),
            q.running() == Set::<i64>::empty(),
    {
        RecTaskQueue { inner: HashMap::new(), handles: HashSet::new() }
    }

    /// Keeps `info` under its programme id whether or not a request is
    /// there; tells whether a task must be spawned for the id, which is so
    /// exactly when no task holds a handle for it (the id then counts as
    /// running).
    pub fn add(&mut self, info: RecordingTaskDescription) -> (spawn: bool)
        ensures
            final(self).requests() == old(self).requests().insert(info.program.id, info),
            spawn == !old(self).running().contains(info.program.id),
            final(self).running() == old(self).running().insert(info.program.id),
    {
        let id = info.program.id;
        self.inner.insert(id, info);
        let spawn = !self.handles.contains(&id);
        if spawn {
            self.handles.insert(id);
        }
        proof {
            assert(self.handles@ =~= old(self).handles@.insert(id));
        }
        spawn
    }

    /// Offers `info` under its programme id. When no task holds a handle for
    /// the id, the request is kept (replacing one kept before) and a task
    /// must be spawned; when a task holds one, the request is kept only if
    /// none is kept under the id yet. The first result tells whether `info`
    /// was kept, the second whether a task must be spawned.
    pub fn try_add(&mut self, info: RecordingTaskDescription) -> (r: (bool, bool))
        ensures
            r.1 == !old(self).running().contains(info.program.id),
            r.0 == (!old(self).running().contains(info.program.id) || !old(
                self,
            ).requests().contains_key(info.program.id)),
            r.0 ==> final(self).requests() == old(self).requests().insert(info.program.id, info),
            !r.0 ==> final(self).requests() == old(self).requests(),
            final(self).running() == old(self).running().insert(info.program.id),
    {
        let id = info.program.id;
        let spawn = !self.handles.contains(&id);
        let keep = spawn || !self.inner.contains_key(&id);
        if keep {
            self.inner.insert(id, info);
        }
        if spawn {
            self.handles.insert(id);
        }
        proof {
            assert(self.handles@ =~= old(self).handles@.insert(id));
        }
        (keep, spawn)
    }

    /// Gives up the id: its request and its task handle are dropped. The
    /// results tell whether there was a request and whether there was a
    /// handle (the driver signals that handle to stop the task).
    pub fn try_remove(&mut self, id: i64) -> (r: (bool, bool))
        ensures
            r.0 == old(self).requests().contains_key(id),
            r.1 == old(self).running().contains(id),
            final(self).requests() == old(self).requests().remove(id),
            final(self).running() == old(self).running().remove(id),
    {
        let had_request = self.inner.remove(&id).is_some();
        let had_handle = self.handles.remove(&id);
        (had_request, had_handle)
    }

    /// The request kept under `id`.
    pub fn at(&self, id: i64) -> (r: Option<&RecordingTaskDescription>)
        ensures
            match r {
                Some(d) => self.requests().contains_key(id) && *d == self.requests()[id],
                None => !self.requests().contains_key(id),
            },
    {
        self.inner.get(&id)
    }
}

} // verus!
