//! The job registry: the deduplication authority. A sharded concurrent map
//! binds each job id to its state; an id is claimed at most once and is
//! never removed.

use vstd::prelude::*;

use crate::ProcessingState;

verus! {

#[verifier::external_type_specification]
#[verifier::external_body]
#[verifier::reject_recursive_types(K)]
#[verifier::reject_recursive_types(V)]
#[verifier::reject_recursive_types(S)]
pub struct ExDashMap<K, V, S>(dashmap::DashMap<K, V, S>);

/// What the registry map holds: the state bound to each job id.
pub uninterp spec fn registry_view(m: dashmap::DashMap<String, ProcessingState>) -> Map<
    Seq<char>,
    ProcessingState,
>;

/// The registry state with no job recorded.
pub open spec fn empty_registry() -> Map<Seq<char>, ProcessingState> {
    Map::empty()
}

/// Relies on dashmap::DashMap::new: a freshly created map is empty.
#[verifier::external_body]
fn map_new() -> (r: dashmap::DashMap<String, ProcessingState>)
    ensures
        registry_view(r) == empty_registry(),
{
    dashmap::DashMap::new()
}

/// Relies on dashmap::DashMap::entry and Entry::or_insert_with: when the key
/// is absent the closure runs once, its result is inserted and returned;
/// when the key is present its stored value is returned, the map is
/// unchanged and the closure is not run.
#[verifier::external_body]
fn map_get_or_insert_with<F: FnOnce() -> ProcessingState>(
    m: &mut dashmap::DashMap<String, ProcessingState>,
    id: String,
    f: F,
) -> (r: ProcessingState)
    requires
        call_requires(f, ()),
    ensures
        registry_view(*old(m)).contains_key(id@) ==> r == registry_view(*old(m))[id@]
            && registry_view(*final(m)) == registry_view(*old(m)),
        !registry_view(*old(m)).contains_key(id@) ==> call_ensures(f, (), r) && registry_view(
            *final(m),
        ) == registry_view(*old(m)).insert(id@, r),
{
    m.entry(id).or_insert_with(f).clone()
}

/// Relies on dashmap::DashMap::insert: the value is bound to the key,
/// replacing any earlier binding.
#[verifier::external_body]
fn map_insert(m: &mut dashmap::DashMap<String, ProcessingState>, id: String, v: ProcessingState)
    ensures
        registry_view(*final(m)) == registry_view(*old(m)).insert(id@, v),
{
    m.insert(id, v);
}

/// The registry of jobs by id. It grows monotonically: entries are claimed
/// once and marked done, never evicted.
pub struct JobRegistry {
    map: dashmap::DashMap<String, ProcessingState>,
}

impl View for JobRegistry {
    type V = Map<Seq<char>, ProcessingState>;

    closed spec fn view(&self) -> Map<Seq<char>, ProcessingState> {
        registry_view(self.map)
    }
}

/// What one get-or-start step does: an id already present short-circuits to
/// its stored state and changes nothing; a new id is bound to the freshly
/// produced state.
pub open spec fn get_or_start_post(
    m: Map<Seq<char>, ProcessingState>,
    id: Seq<char>,
    r: ProcessingState,
    m2: Map<Seq<char>, ProcessingState>,
) -> bool {
    if m.contains_key(id) {
        r == m[id] && m2 == m
    } else {
        m2 == m.insert(id, r)
    }
}

impl JobRegistry {
    /// An empty registry.
    pub fn new() -> (r: JobRegistry)
        ensures
            r@ == Map::<Seq<char>, ProcessingState>::empty(),
    {
        JobRegistry { map: map_new() }
    }

    /// Atomic get-or-insert: an id already present returns its state without
    /// running `start_fn`; a new id runs `start_fn` exactly once and records
    /// its result.
    pub fn get_or_start<F: FnOnce() -> ProcessingState>(&mut self, id: &str, start_fn: F) -> (r:
        ProcessingState)
        requires
            call_requires(start_fn, ()),
        ensures
            get_or_start_post(old(self)@, id@, r, final(self)@),
            !old(self)@.contains_key(id@) ==> call_ensures(start_fn, (), r),
    {
        map_get_or_insert_with(&mut self.map, id.to_owned(), start_fn)
    }

    /// Marks the job done, the terminal state; the encoder's exit code plays
    /// no part in it.
    pub fn mark_done(&mut self, id: &str)
        ensures
            final(self)@ == old(self)@.insert(id@, ProcessingState::Done),
    {
        map_insert(&mut self.map, id.to_owned(), ProcessingState::Done);
    }
}

/// Requests for one id deduplicate: after a first get-or-start claims a new
/// id, a second get-or-start on that id returns the very state the first
/// call established and leaves the registry unchanged — so work starts at
/// most once per id.
pub proof fn lemma_get_or_start_dedup(
    m: Map<Seq<char>, ProcessingState>,
    id: Seq<char>,
    r1: ProcessingState,
    m1: Map<Seq<char>, ProcessingState>,
    r2: ProcessingState,
    m2: Map<Seq<char>, ProcessingState>,
)
    requires
        !m.contains_key(id),
        get_or_start_post(m, id, r1, m1),
        get_or_start_post(m1, id, r2, m2),
    ensures
        r2 == r1,
        m2 == m1,
{
}

/// A done job stays done: get-or-start on an id in state `Done` returns
/// `Done` at once and changes nothing, so no new work can start for it.
pub proof fn lemma_done_short_circuits(
    m: Map<Seq<char>, ProcessingState>,
    id: Seq<char>,
    r: ProcessingState,
    m2: Map<Seq<char>, ProcessingState>,
)
    requires
        m.contains_key(id),
        m[id] == ProcessingState::Done,
        get_or_start_post(m, id, r, m2),
    ensures
        r == ProcessingState::Done,
        m2 == m,
{
}

/// The registry only grows: a get-or-start step keeps every existing entry.
pub proof fn lemma_get_or_start_monotone(
    m: Map<Seq<char>, ProcessingState>,
    id: Seq<char>,
    r: ProcessingState,
    m2: Map<Seq<char>, ProcessingState>,
)
    requires
        get_or_start_post(m, id, r, m2),
    ensures
        m.submap_of(m2),
{
    if m.contains_key(id) {
        assert(m.submap_of(m2));
    } else {
        assert(forall|k: Seq<char>|
            m.dom().contains(k) ==> m2.dom().contains(k) && m2[k] == m[k]);
    }
}

} // verus!
