use vstd::prelude::*;

use crate::chunk::ChunkData;

verus! {

/// The integer coordinate of a chunk in the world: the unit of
/// generation, meshing and loading.
#[derive(Debug, Clone, Copy, PartialEq, Eq, Hash, Structural)]
pub struct ChunkId {
    pub x: i32,
    pub y: i32,
    pub z: i32,
}

impl ChunkId {
    pub fn new(x: i32, y: i32, z: i32) -> (r: Self)
        ensures
            r == (ChunkId { x, y, z }),
    {
        ChunkId { x, y, z }
    }
}

/// The host-configured concurrency limits of the two pipeline stages.
#[derive(Debug, Clone, Copy, PartialEq, Eq, Structural)]
pub struct GeneratorLimits {
    pub max_generating_chunks: usize,
    pub max_meshing_chunks: usize,
}

/// A malformed configuration, rejected when the manager is built.
#[derive(Debug, Clone, Copy, PartialEq, Eq, Structural)]
pub enum ConfigError {
    ZeroGeneratingLimit,
    ZeroMeshingLimit,
}

/// No chunk id occurs twice in the sequence.
pub open spec fn distinct_ids(s: Seq<ChunkId>) -> bool {
    forall|i: int, j: int| 0 <= i < j < s.len() ==> s[i] != s[j]
}

/// No chunk id occurs in both sequences.
pub open spec fn disjoint_ids(a: Seq<ChunkId>, b: Seq<ChunkId>) -> bool {
    forall|i: int| 0 <= i < a.len() ==> !b.contains(#[trigger] a[i])
}

/// The keys of a content store.
pub open spec fn keys_of(chunks: Seq<(ChunkId, ChunkData)>) -> Seq<ChunkId> {
    chunks.map_values(|p: (ChunkId, ChunkData)| p.0)
}

/// Whether `v` holds `id`.
fn vec_contains(v: &Vec<ChunkId>, id: ChunkId) -> (r: bool)
    ensures
        r == v@.contains(id),
{
    let mut k: usize = 0;
    while k < v.len()
        invariant
            k <= v@.len(),
            forall|i: int| 0 <= i < k ==> v@[i] != id,
        decreases v@.len() - k,
    {
        if v[k] == id {
            assert(v@[k as int] == id);
            return true;
        }
        k = k + 1;
    }
    assert(forall|i: int| 0 <= i < v@.len() ==> v@[i] != id);
    false
}

/// Removes the first occurrence of `id`, if any. Distinctness and the
/// membership of every other id are preserved.
fn vec_remove_id(v: &mut Vec<ChunkId>, id: ChunkId) -> (r: bool)
    requires
        distinct_ids(old(v)@),
    ensures
        r == old(v)@.contains(id),
        distinct_ids(final(v)@),
        !final(v)@.contains(id),
        !old(v)@.contains(id) ==> final(v)@ == old(v)@,
        forall|o: ChunkId| o != id ==> final(v)@.contains(o) == old(v)@.contains(o),
        final(v)@.len() == old(v)@.len() - (if old(v)@.contains(id) {
            1int
        } else {
            0int
        }),
{
    let ghost v0 = v@;
    let mut k: usize = 0;
    while k < v.len()
        invariant
            v@ == v0,
            v0 == old(v)@,
            distinct_ids(v0),
            k <= v0.len(),
            forall|i: int| 0 <= i < k ==> v0[i] != id,
        decreases v0.len() - k,
    {
        if v[k] == id {
            assert(v0[k as int] == id);
            v.remove(k);
            proof {
                assert(v@ == v0.remove(k as int));
                v0.remove_ensures(k as int);
                assert(v0.contains(id));
                assert forall|o: ChunkId| o != id implies v@.contains(o) == v0.contains(o) by {
                    if v0.contains(o) {
                        let i = choose|i: int| 0 <= i < v0.len() && v0[i] == o;
                        assert(i != k);
                        if i < k {
                            assert(v0.remove(k as int)[i] == v0[i]);
                            assert(v@[i] == o);
                        } else {
                            assert(v0.remove(k as int)[i - 1] == v0[i]);
                            assert(v@[i - 1] == o);
                        }
                    }
                    if v@.contains(o) {
                        let i = choose|i: int| 0 <= i < v@.len() && v@[i] == o;
                        if i < k {
                            assert(v0.remove(k as int)[i] == v0[i]);
                            assert(v0[i] == o);
                        } else {
                            assert(v0.remove(k as int)[i] == v0[i + 1]);
                            assert(v0[i + 1] == o);
                        }
                    }
                }
                assert forall|i: int, j: int| 0 <= i < j < v@.len() implies v@[i] != v@[j] by {
                    if i < k {
                        assert(v0.remove(k as int)[i] == v0[i]);
                    } else {
                        assert(v0.remove(k as int)[i] == v0[i + 1]);
                    }
                    if j < k {
                        assert(v0.remove(k as int)[j] == v0[j]);
                    } else {
                        assert(v0.remove(k as int)[j] == v0[j + 1]);
                    }
                }
                assert(!v@.contains(id)) by {
                    if v@.contains(id) {
                        let i = choose|i: int| 0 <= i < v@.len() && v@[i] == id;
                        if i < k {
                            assert(v0.remove(k as int)[i] == v0[i]);
                            assert(v0[i] == v0[k as int]);
                            assert(false);
                        } else {
                            assert(v0.remove(k as int)[i] == v0[i + 1]);
                            assert(v0[i + 1] == v0[k as int]);
                            assert(false);
                        }
                    }
                }
            }
            return true;
        }
        k = k + 1;
    }
    assert(forall|i: int| 0 <= i < v0.len() ==> v0[i] != id);
    false
}

/// One pipeline stage: the chunk ids waiting to be worked on, the ids
/// whose work is currently running, and the hard cap on the latter.
pub struct StageQueue {
    pub pending: Vec<ChunkId>,
    pub in_flight: Vec<ChunkId>,
    pub limit: usize,
}

impl StageQueue {
    /// Well-formedness: no duplicates, a chunk id is pending or in flight
    /// but never both, and the number of running tasks never passes the
    /// configured limit, which is positive.
    pub open spec fn wf(self) -> bool {
        &&& distinct_ids(self.pending@)
        &&& distinct_ids(self.in_flight@)
        &&& disjoint_ids(self.pending@, self.in_flight@)
        &&& disjoint_ids(self.in_flight@, self.pending@)
        &&& self.in_flight@.len() <= self.limit
        &&& self.limit >= 1
    }

    /// Whether the stage tracks this chunk id at all.
    pub open spec fn contains_id(self, id: ChunkId) -> bool {
        self.pending@.contains(id) || self.in_flight@.contains(id)
    }

    fn new(limit: usize) -> (r: StageQueue)
        requires
            limit >= 1,
        ensures
            r.wf(),
            r.pending@.len() == 0,
            r.in_flight@.len() == 0,
            r.limit == limit,
    {
        StageQueue { pending: Vec::new(), in_flight: Vec::new(), limit }
    }
}

/// The scheduler of the two pipeline stages. It owns the queue state and
/// the generated chunk contents; the host performs the actual
/// asynchronous work and reports back what it started and finished.
pub struct PipelineManager {
    pub generation: StageQueue,
    pub meshing: StageQueue,
    pub chunks: Vec<(ChunkId, ChunkData)>,
    pub doomed: Vec<ChunkId>,
}

impl PipelineManager {
    /// The ids that have generated content installed.
    pub open spec fn content_keys(self) -> Seq<ChunkId> {
        keys_of(self.chunks@)
    }

    pub open spec fn has_content(self, id: ChunkId) -> bool {
        self.content_keys().contains(id)
    }

    /// Whether either stage tracks this chunk id.
    pub open spec fn queued_anywhere(self, id: ChunkId) -> bool {
        self.generation.contains_id(id) || self.meshing.contains_id(id)
    }

    /// Well-formedness: both stages are well formed, a chunk id is
    /// tracked by at most one queue of one stage, every stored content is
    /// well formed under a unique key, every id pending to be meshed has
    /// content to mesh, and an id is doomed (removed by the host while
    /// its work ran) only while that work is still in flight.
    pub open spec fn wf(self) -> bool {
        &&& self.generation.wf()
        &&& self.meshing.wf()
        &&& disjoint_ids(self.generation.pending@, self.meshing.pending@)
        &&& disjoint_ids(self.generation.pending@, self.meshing.in_flight@)
        &&& disjoint_ids(self.generation.in_flight@, self.meshing.pending@)
        &&& disjoint_ids(self.generation.in_flight@, self.meshing.in_flight@)
        &&& distinct_ids(self.content_keys())
        &&& forall|i: int| 0 <= i < self.chunks@.len() ==> (#[trigger] self.chunks@[i]).1.wf()
        &&& forall|i: int|
            0 <= i < self.meshing.pending@.len() ==> self.has_content(
                #[trigger] self.meshing.pending@[i],
            )
        &&& distinct_ids(self.doomed@)
        &&& forall|i: int|
            0 <= i < self.doomed@.len() ==> self.generation.in_flight@.contains(
                #[trigger] self.doomed@[i],
            ) || self.meshing.in_flight@.contains(self.doomed@[i])
    }

    /// A manager with empty queues and the given limits; a zero limit is
    /// a malformed configuration and is rejected.
    pub fn new(limits: GeneratorLimits) -> (r: Result<PipelineManager, ConfigError>)
        ensures
            limits.max_generating_chunks == 0 ==> r == Err::<PipelineManager, ConfigError>(
                ConfigError::ZeroGeneratingLimit,
            ),
            limits.max_generating_chunks >= 1 && limits.max_meshing_chunks == 0 ==> r == Err::<
                PipelineManager,
                ConfigError,
            >(ConfigError::ZeroMeshingLimit),
            limits.max_generating_chunks >= 1 && limits.max_meshing_chunks >= 1 ==> (r matches Ok(m)
                && m.wf() && m.generation.pending@.len() == 0 && m.generation.in_flight@.len() == 0
                && m.generation.limit == limits.max_generating_chunks && m.meshing.pending@.len()
                == 0 && m.meshing.in_flight@.len() == 0 && m.meshing.limit
                == limits.max_meshing_chunks && m.chunks@.len() == 0 && m.doomed@.len() == 0),
    {
        if limits.max_generating_chunks == 0 {
            return Err(ConfigError::ZeroGeneratingLimit);
        }
        if limits.max_meshing_chunks == 0 {
            return Err(ConfigError::ZeroMeshingLimit);
        }
        Ok(
            PipelineManager {
                generation: StageQueue::new(limits.max_generating_chunks),
                meshing: StageQueue::new(limits.max_meshing_chunks),
                chunks: Vec::new(),
                doomed: Vec::new(),
            },
        )
    }

    /// Asks for a chunk to be generated. The id is queued exactly when it
    /// is not already tracked by either stage and has no content yet;
    /// otherwise nothing changes.
    pub fn request_generation(&mut self, id: ChunkId) -> (r: bool)
        requires
            old(self).wf(),
        ensures
            final(self).wf(),
            r == (!old(self).queued_anywhere(id) && !old(self).has_content(id)),
            r ==> ({
                &&& final(self).generation.pending@ == old(self).generation.pending@.push(id)
                &&& final(self).generation.in_flight@ == old(self).generation.in_flight@
                &&& final(self).generation.limit == old(self).generation.limit
                &&& final(self).meshing == old(self).meshing
                &&& final(self).chunks@ == old(self).chunks@
                &&& final(self).doomed@ == old(self).doomed@
            }),
            !r ==> *final(self) == *old(self),
    {
        if vec_contains(&self.generation.pending, id) || vec_contains(&self.generation.in_flight, id)
            || vec_contains(&self.meshing.pending, id) || vec_contains(&self.meshing.in_flight, id) {
            return false;
        }
        if self.has_content_exec(id) {
            return false;
        }
        self.generation.pending.push(id);
        proof {
            assert forall|i: int, j: int|
                0 <= i < j < self.generation.pending@.len() implies self.generation.pending@[i]
                != self.generation.pending@[j] by {
                if j == self.generation.pending@.len() - 1 {
                    assert(old(self).generation.pending@.contains(
                        old(self).generation.pending@[i],
                    ));
                }
            }
            assert forall|i: int|
                0 <= i < self.generation.pending@.len() implies !self.generation.in_flight@.contains(
                #[trigger] self.generation.pending@[i]) by {
                if i < self.generation.pending@.len() - 1 {
                    assert(old(self).generation.pending@.contains(
                        old(self).generation.pending@[i],
                    ));
                }
            }
            assert forall|i: int|
                0 <= i < self.generation.pending@.len() implies !self.meshing.pending@.contains(
                #[trigger] self.generation.pending@[i]) && !self.meshing.in_flight@.contains(
                self.generation.pending@[i]) by {
                if i < self.generation.pending@.len() - 1 {
                    assert(old(self).generation.pending@.contains(
                        old(self).generation.pending@[i],
                    ));
                }
            }
        }
        true
    }

    /// Whether content is installed for this id.
    pub fn has_content_exec(&self, id: ChunkId) -> (r: bool)
        ensures
            r == self.has_content(id),
    {
        let mut k: usize = 0;
        while k < self.chunks.len()
            invariant
                k <= self.chunks@.len(),
                forall|i: int| 0 <= i < k ==> (#[trigger] self.chunks@[i]).0 != id,
            decreases self.chunks@.len() - k,
        {
            if self.chunks[k].0 == id {
                assert(self.content_keys()[k as int] == id);
                return true;
            }
            k = k + 1;
        }
        assert forall|i: int| 0 <= i < self.content_keys().len() implies self.content_keys()[i]
            != id by {
            assert((#[trigger] self.chunks@[i]).0 != id);
        }
        false
    }

    /// A borrow of the installed content of a chunk, if any.
    pub fn content_of(&self, id: ChunkId) -> (r: Option<&ChunkData>)
        requires
            self.wf(),
        ensures
            r is Some <==> self.has_content(id),
            r matches Some(d) ==> d.wf() && exists|i: int|
                0 <= i < self.chunks@.len() && #[trigger] self.chunks@[i] == (id, *d),
    {
        let mut k: usize = 0;
        while k < self.chunks.len()
            invariant
                k <= self.chunks@.len(),
                forall|i: int| 0 <= i < k ==> (#[trigger] self.chunks@[i]).0 != id,
                self.wf(),
            decreases self.chunks@.len() - k,
        {
            if self.chunks[k].0 == id {
                assert(self.content_keys()[k as int] == id);
                assert(self.chunks@[k as int] == (id, self.chunks@[k as int].1));
                return Some(&self.chunks[k].1);
            }
            k = k + 1;
        }
        assert forall|i: int| 0 <= i < self.content_keys().len() implies self.content_keys()[i]
            != id by {
            assert((#[trigger] self.chunks@[i]).0 != id);
        }
        None
    }
}

/// Membership in a pushed sequence: the pushed id, or an id the sequence
/// already held.
proof fn lemma_push_contains(s: Seq<ChunkId>, x: ChunkId, y: ChunkId)
    ensures
        s.push(x).contains(y) == (s.contains(y) || y == x),
{
    if s.contains(y) {
        let i = choose|i: int| 0 <= i < s.len() && s[i] == y;
        assert(s.push(x)[i] == y);
    }
    assert(s.push(x)[s.len() as int] == x);
    if s.push(x).contains(y) {
        let i = choose|i: int| 0 <= i < s.push(x).len() && s.push(x)[i] == y;
        if i < s.len() {
            assert(s[i] == y);
        }
    }
}

/// Pushing a fresh id preserves distinctness.
proof fn lemma_push_distinct(s: Seq<ChunkId>, x: ChunkId)
    requires
        distinct_ids(s),
        !s.contains(x),
    ensures
        distinct_ids(s.push(x)),
{
    assert forall|i: int, j: int| 0 <= i < j < s.push(x).len() implies s.push(x)[i] != s.push(
        x,
    )[j] by {
        if j < s.len() {
            assert(s.push(x)[i] == s[i] && s.push(x)[j] == s[j]);
        } else {
            assert(s.push(x)[j] == x);
            assert(s.push(x)[i] == s[i]);
            assert(s.contains(s[i]));
        }
    }
}

/// Installs content under `id`, replacing any previous content of that
/// id: key uniqueness, the membership of every other key, and every
/// other entry are preserved.
fn put_content(chunks: &mut Vec<(ChunkId, ChunkData)>, id: ChunkId, data: ChunkData)
    requires
        distinct_ids(keys_of(old(chunks)@)),
        forall|i: int| 0 <= i < old(chunks)@.len() ==> (#[trigger] old(chunks)@[i]).1.wf(),
        data.wf(),
    ensures
        distinct_ids(keys_of(final(chunks)@)),
        forall|i: int| 0 <= i < final(chunks)@.len() ==> (#[trigger] final(chunks)@[i]).1.wf(),
        keys_of(final(chunks)@).contains(id),
        forall|o: ChunkId|
            o != id ==> #[trigger] keys_of(final(chunks)@).contains(o) == keys_of(
                old(chunks)@,
            ).contains(o),
        forall|i: int|
            0 <= i < final(chunks)@.len() && (#[trigger] final(chunks)@[i]).0 != id ==> old(
                chunks,
            )@.contains(final(chunks)@[i]),
        exists|i: int| 0 <= i < final(chunks)@.len() && #[trigger] final(chunks)@[i] == (id, data),
{
    let ghost c0 = chunks@;
    let ghost keys0 = keys_of(chunks@);
    let mut k: usize = 0;
    while k < chunks.len()
        invariant
            chunks@ == c0,
            c0 == old(chunks)@,
            keys0 == keys_of(c0),
            distinct_ids(keys0),
            data.wf(),
            forall|i: int| 0 <= i < c0.len() ==> (#[trigger] c0[i]).1.wf(),
            k <= c0.len(),
            forall|i: int| 0 <= i < k ==> (#[trigger] c0[i]).0 != id,
        decreases c0.len() - k,
    {
        if chunks[k].0 == id {
            chunks[k] = (id, data);
            proof {
                let keys1 = keys_of(chunks@);
                assert(keys1 =~= keys0);
                assert(keys0[k as int] == id);
                assert(chunks@[k as int] == (id, data));
                assert forall|i: int|
                    0 <= i < chunks@.len() && (#[trigger] chunks@[i]).0 != id implies c0.contains(
                    chunks@[i],
                ) by {
                    assert(chunks@[i] == c0[i]);
                }
            }
            return ;
        }
        k = k + 1;
    }
    chunks.push((id, data));
    proof {
        let keys1 = keys_of(chunks@);
        assert(keys1 =~= keys0.push(id));
        assert(!keys0.contains(id)) by {
            if keys0.contains(id) {
                let i = choose|i: int| 0 <= i < keys0.len() && keys0[i] == id;
                assert((c0[i]).0 == id);
            }
        }
        lemma_push_distinct(keys0, id);
        assert forall|o: ChunkId| o != id implies keys1.contains(o) == keys0.contains(o) by {
            lemma_push_contains(keys0, id, o);
        }
        assert(keys1[keys0.len() as int] == id);
        assert forall|i: int|
            0 <= i < chunks@.len() && (#[trigger] chunks@[i]).0 != id implies c0.contains(
            chunks@[i],
        ) by {
            assert(chunks@[i] == c0[i]);
        }
        assert(chunks@[c0.len() as int] == (id, data));
    }
}

/// Removes the content of `id`, if any; every other entry and the
/// membership of every other key are preserved.
fn remove_content(chunks: &mut Vec<(ChunkId, ChunkData)>, id: ChunkId)
    requires
        distinct_ids(keys_of(old(chunks)@)),
        forall|i: int| 0 <= i < old(chunks)@.len() ==> (#[trigger] old(chunks)@[i]).1.wf(),
    ensures
        distinct_ids(keys_of(final(chunks)@)),
        forall|i: int| 0 <= i < final(chunks)@.len() ==> (#[trigger] final(chunks)@[i]).1.wf(),
        !keys_of(final(chunks)@).contains(id),
        forall|o: ChunkId|
            o != id ==> #[trigger] keys_of(final(chunks)@).contains(o) == keys_of(
                old(chunks)@,
            ).contains(o),
        forall|i: int|
            0 <= i < final(chunks)@.len() ==> old(chunks)@.contains(#[trigger] final(chunks)@[i]),
{
    let ghost c0 = chunks@;
    let ghost keys0 = keys_of(chunks@);
    let mut k: usize = 0;
    while k < chunks.len()
        invariant
            chunks@ == c0,
            c0 == old(chunks)@,
            keys0 == keys_of(c0),
            distinct_ids(keys0),
            forall|i: int| 0 <= i < c0.len() ==> (#[trigger] c0[i]).1.wf(),
            k <= c0.len(),
            forall|i: int| 0 <= i < k ==> (#[trigger] c0[i]).0 != id,
        decreases c0.len() - k,
    {
        if chunks[k].0 == id {
            chunks.remove(k);
            proof {
                assert(chunks@ == c0.remove(k as int));
                c0.remove_ensures(k as int);
                let keys1 = keys_of(chunks@);
                assert(keys1 =~= keys0.remove(k as int));
                keys0.remove_ensures(k as int);
                assert(keys0[k as int] == id);
                assert forall|i: int, j: int|
                    0 <= i < j < keys1.len() implies keys1[i] != keys1[j] by {
                    if i < k {
                        assert(keys0.remove(k as int)[i] == keys0[i]);
                    } else {
                        assert(keys0.remove(k as int)[i] == keys0[i + 1]);
                    }
                    if j < k {
                        assert(keys0.remove(k as int)[j] == keys0[j]);
                    } else {
                        assert(keys0.remove(k as int)[j] == keys0[j + 1]);
                    }
                }
                assert(!keys1.contains(id)) by {
                    if keys1.contains(id) {
                        let i = choose|i: int| 0 <= i < keys1.len() && keys1[i] == id;
                        if i < k {
                            assert(keys0.remove(k as int)[i] == keys0[i]);
                            assert(keys0[i] == keys0[k as int]);
                        } else {
                            assert(keys0.remove(k as int)[i] == keys0[i + 1]);
                            assert(keys0[i + 1] == keys0[k as int]);
                        }
                    }
                }
                assert forall|o: ChunkId| o != id implies keys1.contains(o) == keys0.contains(
                    o,
                ) by {
                    if keys0.contains(o) {
                        let i = choose|i: int| 0 <= i < keys0.len() && keys0[i] == o;
                        assert(i != k);
                        if i < k {
                            assert(keys0.remove(k as int)[i] == keys0[i]);
                            assert(keys1[i] == o);
                        } else {
                            assert(keys0.remove(k as int)[i - 1] == keys0[i]);
                            assert(keys1[i - 1] == o);
                        }
                    }
                    if keys1.contains(o) {
                        let i = choose|i: int| 0 <= i < keys1.len() && keys1[i] == o;
                        if i < k {
                            assert(keys0.remove(k as int)[i] == keys0[i]);
                        } else {
                            assert(keys0.remove(k as int)[i] == keys0[i + 1]);
                        }
                    }
                }
                assert forall|i: int| 0 <= i < chunks@.len() implies c0.contains(
                    #[trigger] chunks@[i],
                ) by {
                    if i < k {
                        assert(c0.remove(k as int)[i] == c0[i]);
                    } else {
                        assert(c0.remove(k as int)[i] == c0[i + 1]);
                    }
                }
                assert forall|i: int| 0 <= i < chunks@.len() implies (
                #[trigger] chunks@[i]).1.wf() by {
                    if i < k {
                        assert(c0.remove(k as int)[i] == c0[i]);
                    } else {
                        assert(c0.remove(k as int)[i] == c0[i + 1]);
                    }
                }
            }
            return ;
        }
        k = k + 1;
    }
    assert forall|i: int| 0 <= i < keys0.len() implies keys0[i] != id by {
        assert((#[trigger] c0[i]).0 != id);
    }
}


/// The outcome of a request to mesh a chunk.
#[derive(Debug, Clone, Copy, PartialEq, Eq, Structural)]
pub enum MeshRequest {
    Queued,
    AlreadyQueued,
    MissingContent,
}

/// The outcome of reporting a finished generation task.
#[derive(Debug, Clone, Copy, PartialEq, Eq, Structural)]
pub enum GenCompletion {
    Installed,
    Discarded,
    Unknown,
}

/// The outcome of reporting a finished meshing task.
#[derive(Debug, Clone, Copy, PartialEq, Eq, Structural)]
pub enum MeshCompletion {
    Done,
    Discarded,
    Unknown,
}

impl PipelineManager {
    /// Puts an id that is queued nowhere onto the meshing queue.
    fn enqueue_meshing(&mut self, id: ChunkId)
        requires
            old(self).wf(),
            !old(self).queued_anywhere(id),
            old(self).has_content(id),
        ensures
            final(self).wf(),
            final(self).meshing.pending@ == old(self).meshing.pending@.push(id),
            final(self).meshing.in_flight@ == old(self).meshing.in_flight@,
            final(self).meshing.limit == old(self).meshing.limit,
            final(self).generation == old(self).generation,
            final(self).chunks@ == old(self).chunks@,
            final(self).doomed@ == old(self).doomed@,
    {
        self.meshing.pending.push(id);
        proof {
            let p0 = old(self).meshing.pending@;
            let p1 = self.meshing.pending@;
            lemma_push_distinct(p0, id);
            assert forall|i: int|
                0 <= i < p1.len() implies !self.meshing.in_flight@.contains(
                #[trigger] p1[i]) by {
                if i < p0.len() {
                    assert(p0.contains(p0[i]));
                }
            }
            assert forall|i: int|
                0 <= i < self.meshing.in_flight@.len() implies !p1.contains(
                #[trigger] self.meshing.in_flight@[i]) by {
                lemma_push_contains(p0, id, self.meshing.in_flight@[i]);
            }
            assert forall|i: int|
                0 <= i < self.generation.pending@.len() implies !p1.contains(
                #[trigger] self.generation.pending@[i]) by {
                lemma_push_contains(p0, id, self.generation.pending@[i]);
            }
            assert forall|i: int|
                0 <= i < self.generation.in_flight@.len() implies !p1.contains(
                #[trigger] self.generation.in_flight@[i]) by {
                lemma_push_contains(p0, id, self.generation.in_flight@[i]);
            }
            assert forall|i: int| 0 <= i < p1.len() implies self.has_content(
                #[trigger] p1[i]) by {
                if i < p0.len() {
                    assert(old(self).has_content(p0[i]));
                }
            }
        }
    }

    /// Installs host-provided content for a chunk and, when the chunk is
    /// not already queued in either stage, queues it for meshing.
    pub fn notify_content_ready(&mut self, id: ChunkId, data: ChunkData) -> (r: bool)
        requires
            old(self).wf(),
            data.wf(),
        ensures
            final(self).wf(),
            final(self).has_content(id),
            r == !old(self).queued_anywhere(id),
            r ==> final(self).meshing.pending@ == old(self).meshing.pending@.push(id),
            !r ==> final(self).meshing.pending@ == old(self).meshing.pending@,
            final(self).meshing.in_flight@ == old(self).meshing.in_flight@,
            final(self).generation == old(self).generation,
            final(self).doomed@ == old(self).doomed@,
            forall|o: ChunkId| o != id ==> final(self).has_content(o) == old(self).has_content(o),
            exists|i: int|
                0 <= i < final(self).chunks@.len() && #[trigger] final(self).chunks@[i] == (
                id,
                data,
            ),
    {
        put_content(&mut self.chunks, id, data);
        proof {
            assert forall|i: int|
                0 <= i < self.meshing.pending@.len() implies self.has_content(
                #[trigger] self.meshing.pending@[i]) by {
                let o = self.meshing.pending@[i];
                assert(old(self).has_content(o));
            }
        }
        let ghost installed = self.chunks@;
        let queued = vec_contains(&self.generation.pending, id) || vec_contains(
            &self.generation.in_flight,
            id,
        ) || vec_contains(&self.meshing.pending, id) || vec_contains(&self.meshing.in_flight, id);
        if queued {
            proof {
                let i = choose|i: int|
                    0 <= i < installed.len() && #[trigger] installed[i] == (id, data);
                assert(self.chunks@[i] == (id, data));
            }
            return false;
        }
        self.enqueue_meshing(id);
        proof {
            let i = choose|i: int|
                0 <= i < installed.len() && #[trigger] installed[i] == (id, data);
            assert(self.chunks@[i] == (id, data));
        }
        true
    }

    /// Asks for an installed chunk to be meshed again. A chunk with no
    /// installed content is a reportable logic error, not a crash: the
    /// request is refused and nothing changes.
    pub fn request_meshing(&mut self, id: ChunkId) -> (r: MeshRequest)
        requires
            old(self).wf(),
        ensures
            final(self).wf(),
            !old(self).has_content(id) ==> r == MeshRequest::MissingContent && *final(self) == *old(
                self,
            ),
            old(self).has_content(id) && old(self).queued_anywhere(id) ==> r
                == MeshRequest::AlreadyQueued && *final(self) == *old(self),
            old(self).has_content(id) && !old(self).queued_anywhere(id) ==> ({
                &&& r == MeshRequest::Queued
                &&& final(self).meshing.pending@ == old(self).meshing.pending@.push(id)
                &&& final(self).meshing.in_flight@ == old(self).meshing.in_flight@
                &&& final(self).generation == old(self).generation
                &&& final(self).chunks@ == old(self).chunks@
                &&& final(self).doomed@ == old(self).doomed@
            }),
    {
        if !self.has_content_exec(id) {
            return MeshRequest::MissingContent;
        }
        let queued = vec_contains(&self.generation.pending, id) || vec_contains(
            &self.generation.in_flight,
            id,
        ) || vec_contains(&self.meshing.pending, id) || vec_contains(&self.meshing.in_flight, id);
        if queued {
            return MeshRequest::AlreadyQueued;
        }
        self.enqueue_meshing(id);
        MeshRequest::Queued
    }

    /// Moves pending generation work into the in-flight set until the
    /// stage's concurrency limit is reached or nothing is pending, and
    /// returns the ids whose generation the host must now start, in queue
    /// order. The in-flight set never passes the configured limit.
    pub fn take_generation_starts(&mut self) -> (r: Vec<ChunkId>)
        requires
            old(self).wf(),
        ensures
            final(self).wf(),
            final(self).generation.in_flight@.len() <= final(self).generation.limit,
            final(self).generation.in_flight@ == old(self).generation.in_flight@ + r@,
            r@ == old(self).generation.pending@.take(r@.len() as int),
            final(self).generation.pending@ == old(self).generation.pending@.skip(r@.len() as int),
            final(self).generation.limit == old(self).generation.limit,
            final(self).meshing == old(self).meshing,
            final(self).chunks@ == old(self).chunks@,
            final(self).doomed@ == old(self).doomed@,
            old(self).generation.in_flight@.len() + old(self).generation.pending@.len() >= old(
                self,
            ).generation.limit ==> final(self).generation.in_flight@.len() == old(
                self,
            ).generation.limit,
            old(self).generation.in_flight@.len() + old(self).generation.pending@.len() <= old(
                self,
            ).generation.limit ==> final(self).generation.pending@.len() == 0,
    {
        let mut r: Vec<ChunkId> = Vec::new();
        while self.generation.in_flight.len() < self.generation.limit
            && self.generation.pending.len() > 0
            invariant
                self.wf(),
                self.generation.in_flight@ == old(self).generation.in_flight@ + r@,
                r@ == old(self).generation.pending@.take(r@.len() as int),
                r@.len() <= old(self).generation.pending@.len(),
                self.generation.pending@ == old(self).generation.pending@.skip(r@.len() as int),
                self.generation.limit == old(self).generation.limit,
                self.meshing == old(self).meshing,
                self.chunks@ == old(self).chunks@,
                self.doomed@ == old(self).doomed@,
            decreases self.generation.pending@.len(),
        {
            let ghost p0 = self.generation.pending@;
            let ghost f0 = self.generation.in_flight@;
            let ghost n = r@.len() as int;
            let id = self.generation.pending.remove(0);
            self.generation.in_flight.push(id);
            r.push(id);
            proof {
                assert(p0[0] == id);
                assert(p0.contains(id));
                assert(self.generation.pending@ =~= old(self).generation.pending@.skip(n + 1));
                assert(r@ =~= old(self).generation.pending@.take(n + 1));
                lemma_push_distinct(f0, id);
                assert forall|i: int|
                    0 <= i < self.generation.pending@.len() implies !self.generation.in_flight@.contains(
                    #[trigger] self.generation.pending@[i]) by {
                    assert(self.generation.pending@[i] == p0[i + 1]);
                    assert(p0.contains(p0[i + 1]));
                    lemma_push_contains(f0, id, p0[i + 1]);
                }
                assert forall|i: int|
                    0 <= i < self.generation.in_flight@.len() implies !self.generation.pending@.contains(
                    #[trigger] self.generation.in_flight@[i]) by {
                    let o = self.generation.in_flight@[i];
                    if self.generation.pending@.contains(o) {
                        let j = choose|j: int|
                            0 <= j < self.generation.pending@.len()
                                && self.generation.pending@[j] == o;
                        assert(p0[j + 1] == o);
                        assert(p0.contains(o));
                        if i < f0.len() {
                            assert(f0.contains(f0[i]));
                        }
                    }
                }
                assert forall|i: int|
                    0 <= i < self.generation.in_flight@.len() implies !self.meshing.pending@.contains(
                    #[trigger] self.generation.in_flight@[i])
                    && !self.meshing.in_flight@.contains(self.generation.in_flight@[i]) by {
                    if i < f0.len() {
                        assert(f0.contains(f0[i]));
                    } else {
                        assert(self.generation.in_flight@[i] == id);
                        assert(p0.contains(id));
                    }
                }
                assert forall|i: int|
                    0 <= i < self.generation.pending@.len() implies !self.meshing.pending@.contains(
                    #[trigger] self.generation.pending@[i]) && !self.meshing.in_flight@.contains(
                    self.generation.pending@[i]) by {
                    assert(self.generation.pending@[i] == p0[i + 1]);
                    assert(p0.contains(p0[i + 1]));
                }
                assert forall|i: int|
                    0 <= i < self.doomed@.len() implies self.generation.in_flight@.contains(
                    #[trigger] self.doomed@[i]) || self.meshing.in_flight@.contains(
                    self.doomed@[i]) by {
                    if f0.contains(self.doomed@[i]) {
                        let j = choose|j: int| 0 <= j < f0.len() && f0[j] == self.doomed@[i];
                        assert(self.generation.in_flight@[j] == self.doomed@[i]);
                    }
                }
            }
        }
        r
    }

    /// Moves pending meshing work into the in-flight set until the
    /// stage's concurrency limit is reached or nothing is pending, and
    /// returns the ids whose meshing the host must now start, in queue
    /// order; each returned id has installed content. The in-flight set
    /// never passes the configured limit.
    pub fn take_meshing_starts(&mut self) -> (r: Vec<ChunkId>)
        requires
            old(self).wf(),
        ensures
            final(self).wf(),
            final(self).meshing.in_flight@.len() <= final(self).meshing.limit,
            final(self).meshing.in_flight@ == old(self).meshing.in_flight@ + r@,
            r@ == old(self).meshing.pending@.take(r@.len() as int),
            final(self).meshing.pending@ == old(self).meshing.pending@.skip(r@.len() as int),
            final(self).meshing.limit == old(self).meshing.limit,
            final(self).generation == old(self).generation,
            final(self).chunks@ == old(self).chunks@,
            final(self).doomed@ == old(self).doomed@,
            forall|i: int| 0 <= i < r@.len() ==> final(self).has_content(#[trigger] r@[i]),
            old(self).meshing.in_flight@.len() + old(self).meshing.pending@.len() >= old(
                self,
            ).meshing.limit ==> final(self).meshing.in_flight@.len() == old(self).meshing.limit,
            old(self).meshing.in_flight@.len() + old(self).meshing.pending@.len() <= old(
                self,
            ).meshing.limit ==> final(self).meshing.pending@.len() == 0,
    {
        let mut r: Vec<ChunkId> = Vec::new();
        while self.meshing.in_flight.len() < self.meshing.limit && self.meshing.pending.len() > 0
            invariant
                self.wf(),
                self.meshing.in_flight@ == old(self).meshing.in_flight@ + r@,
                r@ == old(self).meshing.pending@.take(r@.len() as int),
                r@.len() <= old(self).meshing.pending@.len(),
                self.meshing.pending@ == old(self).meshing.pending@.skip(r@.len() as int),
                self.meshing.limit == old(self).meshing.limit,
                self.generation == old(self).generation,
                self.chunks@ == old(self).chunks@,
                self.doomed@ == old(self).doomed@,
                forall|i: int| 0 <= i < r@.len() ==> self.has_content(#[trigger] r@[i]),
            decreases self.meshing.pending@.len(),
        {
            let ghost p0 = self.meshing.pending@;
            let ghost f0 = self.meshing.in_flight@;
            let ghost n = r@.len() as int;
            let id = self.meshing.pending.remove(0);
            self.meshing.in_flight.push(id);
            r.push(id);
            proof {
                assert(p0[0] == id);
                assert(p0.contains(id));
                assert(self.meshing.pending@ =~= old(self).meshing.pending@.skip(n + 1));
                assert(r@ =~= old(self).meshing.pending@.take(n + 1));
                lemma_push_distinct(f0, id);
                assert forall|i: int|
                    0 <= i < self.meshing.pending@.len() implies !self.meshing.in_flight@.contains(
                    #[trigger] self.meshing.pending@[i]) by {
                    assert(self.meshing.pending@[i] == p0[i + 1]);
                    assert(p0.contains(p0[i + 1]));
                    lemma_push_contains(f0, id, p0[i + 1]);
                }
                assert forall|i: int|
                    0 <= i < self.meshing.in_flight@.len() implies !self.meshing.pending@.contains(
                    #[trigger] self.meshing.in_flight@[i]) by {
                    let o = self.meshing.in_flight@[i];
                    if self.meshing.pending@.contains(o) {
                        let j = choose|j: int|
                            0 <= j < self.meshing.pending@.len() && self.meshing.pending@[j] == o;
                        assert(p0[j + 1] == o);
                        assert(p0.contains(o));
                        if i < f0.len() {
                            assert(f0.contains(f0[i]));
                        }
                    }
                }
                assert forall|i: int|
                    0 <= i < self.generation.in_flight@.len() implies !self.meshing.pending@.contains(
                    #[trigger] self.generation.in_flight@[i]) by {
                    let o = self.generation.in_flight@[i];
                    if self.meshing.pending@.contains(o) {
                        let j = choose|j: int|
                            0 <= j < self.meshing.pending@.len() && self.meshing.pending@[j] == o;
                        assert(p0[j + 1] == o);
                        assert(p0.contains(o));
                    }
                }
                assert forall|i: int|
                    0 <= i < self.generation.pending@.len() implies !self.meshing.pending@.contains(
                    #[trigger] self.generation.pending@[i]) by {
                    let o = self.generation.pending@[i];
                    if self.meshing.pending@.contains(o) {
                        let j = choose|j: int|
                            0 <= j < self.meshing.pending@.len() && self.meshing.pending@[j] == o;
                        assert(p0[j + 1] == o);
                        assert(p0.contains(o));
                    }
                }
                assert forall|i: int|
                    0 <= i < self.generation.pending@.len() implies !self.meshing.in_flight@.contains(
                    #[trigger] self.generation.pending@[i]) by {
                    lemma_push_contains(f0, id, self.generation.pending@[i]);
                    assert(p0.contains(id));
                }
                assert forall|i: int|
                    0 <= i < self.generation.in_flight@.len() implies !self.meshing.in_flight@.contains(
                    #[trigger] self.generation.in_flight@[i]) by {
                    lemma_push_contains(f0, id, self.generation.in_flight@[i]);
                    assert(p0.contains(id));
                }
                assert forall|i: int|
                    0 <= i < self.meshing.pending@.len() implies self.has_content(
                    #[trigger] self.meshing.pending@[i]) by {
                    assert(self.meshing.pending@[i] == p0[i + 1]);
                }
                assert forall|i: int| 0 <= i < r@.len() implies self.has_content(
                    #[trigger] r@[i]) by {
                    if i == r@.len() - 1 {
                        assert(r@[i] == id);
                        assert(p0[0] == id);
                    }
                }
                assert forall|i: int|
                    0 <= i < self.doomed@.len() implies self.generation.in_flight@.contains(
                    #[trigger] self.doomed@[i]) || self.meshing.in_flight@.contains(
                    self.doomed@[i]) by {
                    if f0.contains(self.doomed@[i]) {
                        let j = choose|j: int| 0 <= j < f0.len() && f0[j] == self.doomed@[i];
                        assert(self.meshing.in_flight@[j] == self.doomed@[i]);
                    }
                }
            }
        }
        r
    }
}


impl PipelineManager {
    /// Reports a finished generation task. If the id is still wanted, the
    /// content is installed and the chunk moves to the meshing queue —
    /// exactly once; if the host removed the chunk meanwhile, the result
    /// is discarded; a report for an id that was never in flight changes
    /// nothing.
    pub fn complete_generation(&mut self, id: ChunkId, data: ChunkData) -> (r: GenCompletion)
        requires
            old(self).wf(),
            data.wf(),
        ensures
            final(self).wf(),
            !old(self).generation.in_flight@.contains(id) ==> r == GenCompletion::Unknown
                && *final(self) == *old(self),
            old(self).generation.in_flight@.contains(id) ==> ({
                &&& !final(self).generation.in_flight@.contains(id)
                &&& forall|o: ChunkId|
                    o != id ==> final(self).generation.in_flight@.contains(o) == old(
                        self,
                    ).generation.in_flight@.contains(o)
                &&& final(self).generation.pending@ == old(self).generation.pending@
                &&& final(self).generation.limit == old(self).generation.limit
                &&& final(self).meshing.in_flight@ == old(self).meshing.in_flight@
                &&& final(self).meshing.limit == old(self).meshing.limit
                &&& !final(self).doomed@.contains(id)
            }),
            old(self).generation.in_flight@.contains(id) && old(self).doomed@.contains(id) ==> ({
                &&& r == GenCompletion::Discarded
                &&& final(self).meshing.pending@ == old(self).meshing.pending@
                &&& final(self).chunks@ == old(self).chunks@
            }),
            old(self).generation.in_flight@.contains(id) && !old(self).doomed@.contains(id) ==> ({
                &&& r == GenCompletion::Installed
                &&& final(self).meshing.pending@ == old(self).meshing.pending@.push(id)
                &&& final(self).meshing.contains_id(id)
                &&& final(self).has_content(id)
                &&& exists|i: int|
                    0 <= i < final(self).chunks@.len() && #[trigger] final(self).chunks@[i] == (
                    id,
                    data,
                )
                &&& forall|o: ChunkId|
                    o != id ==> final(self).has_content(o) == old(self).has_content(o)
                &&& final(self).doomed@ == old(self).doomed@
            }),
    {
        if !vec_contains(&self.generation.in_flight, id) {
            return GenCompletion::Unknown;
        }
        vec_remove_id(&mut self.generation.in_flight, id);
        let was_doomed = vec_remove_id(&mut self.doomed, id);
        proof {
            lemma_members_disjoint_after_removal(*old(self), *self, id);
        }
        if was_doomed {
            return GenCompletion::Discarded;
        }
        put_content(&mut self.chunks, id, data);
        let ghost installed = self.chunks@;
        proof {
            assert forall|i: int|
                0 <= i < self.meshing.pending@.len() implies self.has_content(
                #[trigger] self.meshing.pending@[i]) by {
                let o = self.meshing.pending@[i];
                assert(old(self).has_content(o));
            }
            assert(!self.generation.pending@.contains(id));
            assert(!self.meshing.pending@.contains(id));
            assert(!self.meshing.in_flight@.contains(id));
        }
        self.enqueue_meshing(id);
        proof {
            let i = choose|i: int|
                0 <= i < installed.len() && #[trigger] installed[i] == (id, data);
            assert(self.chunks@[i] == (id, data));
            assert(self.meshing.pending@.last() == id);
            assert(self.meshing.pending@.contains(id));
        }
        GenCompletion::Installed
    }

    /// Reports a failed generation task: the id leaves the in-flight set
    /// with nothing installed, so the chunk stays absent and is eligible
    /// to be requested again.
    pub fn fail_generation(&mut self, id: ChunkId) -> (r: bool)
        requires
            old(self).wf(),
        ensures
            final(self).wf(),
            r == old(self).generation.in_flight@.contains(id),
            !r ==> *final(self) == *old(self),
            r ==> ({
                &&& !final(self).queued_anywhere(id)
                &&& forall|o: ChunkId|
                    o != id ==> final(self).generation.in_flight@.contains(o) == old(
                        self,
                    ).generation.in_flight@.contains(o)
                &&& final(self).generation.pending@ == old(self).generation.pending@
                &&& final(self).generation.limit == old(self).generation.limit
                &&& final(self).meshing == old(self).meshing
                &&& final(self).chunks@ == old(self).chunks@
            }),
    {
        if !vec_contains(&self.generation.in_flight, id) {
            return false;
        }
        vec_remove_id(&mut self.generation.in_flight, id);
        vec_remove_id(&mut self.doomed, id);
        proof {
            lemma_members_disjoint_after_removal(*old(self), *self, id);
        }
        true
    }

    /// Reports a finished meshing task: the id leaves the in-flight set;
    /// the host installs the mesh unless the chunk was removed meanwhile,
    /// in which case the result is discarded. The generated content stays
    /// installed either way.
    pub fn complete_meshing(&mut self, id: ChunkId) -> (r: MeshCompletion)
        requires
            old(self).wf(),
        ensures
            final(self).wf(),
            !old(self).meshing.in_flight@.contains(id) ==> r == MeshCompletion::Unknown
                && *final(self) == *old(self),
            old(self).meshing.in_flight@.contains(id) ==> ({
                &&& r == (if old(self).doomed@.contains(id) {
                    MeshCompletion::Discarded
                } else {
                    MeshCompletion::Done
                })
                &&& !final(self).meshing.in_flight@.contains(id)
                &&& forall|o: ChunkId|
                    o != id ==> final(self).meshing.in_flight@.contains(o) == old(
                        self,
                    ).meshing.in_flight@.contains(o)
                &&& final(self).meshing.pending@ == old(self).meshing.pending@
                &&& final(self).meshing.limit == old(self).meshing.limit
                &&& final(self).generation == old(self).generation
                &&& final(self).chunks@ == old(self).chunks@
                &&& !final(self).doomed@.contains(id)
            }),
    {
        if !vec_contains(&self.meshing.in_flight, id) {
            return MeshCompletion::Unknown;
        }
        vec_remove_id(&mut self.meshing.in_flight, id);
        let was_doomed = vec_remove_id(&mut self.doomed, id);
        proof {
            lemma_members_disjoint_after_removal(*old(self), *self, id);
        }
        if was_doomed {
            MeshCompletion::Discarded
        } else {
            MeshCompletion::Done
        }
    }

    /// The host removed the chunk: forget pending work and installed
    /// content. Work already in flight cannot be cancelled; it is marked
    /// so that its result is discarded when it completes.
    pub fn notify_removed(&mut self, id: ChunkId)
        requires
            old(self).wf(),
        ensures
            final(self).wf(),
            !final(self).generation.pending@.contains(id),
            !final(self).meshing.pending@.contains(id),
            !final(self).has_content(id),
            final(self).generation.in_flight@ == old(self).generation.in_flight@,
            final(self).meshing.in_flight@ == old(self).meshing.in_flight@,
            final(self).generation.limit == old(self).generation.limit,
            final(self).meshing.limit == old(self).meshing.limit,
            forall|o: ChunkId|
                o != id ==> final(self).generation.pending@.contains(o) == old(
                    self,
                ).generation.pending@.contains(o),
            forall|o: ChunkId|
                o != id ==> final(self).meshing.pending@.contains(o) == old(
                    self,
                ).meshing.pending@.contains(o),
            forall|o: ChunkId| o != id ==> final(self).has_content(o) == old(self).has_content(o),
            final(self).doomed@.contains(id) == (old(self).generation.in_flight@.contains(id) || old(
                self,
            ).meshing.in_flight@.contains(id)),
            forall|o: ChunkId|
                o != id ==> final(self).doomed@.contains(o) == old(self).doomed@.contains(o),
    {
        vec_remove_id(&mut self.generation.pending, id);
        vec_remove_id(&mut self.meshing.pending, id);
        remove_content(&mut self.chunks, id);
        proof {
            assert forall|i: int|
                0 <= i < self.meshing.pending@.len() implies self.has_content(
                #[trigger] self.meshing.pending@[i]) by {
                let o = self.meshing.pending@[i];
                assert(old(self).meshing.pending@.contains(o));
                let j = choose|j: int|
                    0 <= j < old(self).meshing.pending@.len() && old(self).meshing.pending@[j] == o;
                assert(old(self).has_content(o));
                assert(o != id);
            }
            assert forall|i: int|
                0 <= i < self.generation.pending@.len() implies ({
                    &&& !self.generation.in_flight@.contains(#[trigger] self.generation.pending@[i])
                    &&& !self.meshing.pending@.contains(self.generation.pending@[i])
                    &&& !self.meshing.in_flight@.contains(self.generation.pending@[i])
                }) by {
                let o = self.generation.pending@[i];
                assert(self.generation.pending@.contains(o));
                assert(old(self).generation.pending@.contains(o));
                let j = choose|j: int|
                    0 <= j < old(self).generation.pending@.len() && old(
                        self,
                    ).generation.pending@[j] == o;
            }
            assert forall|i: int|
                0 <= i < self.generation.in_flight@.len() implies ({
                    &&& !self.generation.pending@.contains(
                        #[trigger] self.generation.in_flight@[i],
                    )
                    &&& !self.meshing.pending@.contains(self.generation.in_flight@[i])
                }) by {
                let o = self.generation.in_flight@[i];
                if self.generation.pending@.contains(o) {
                    assert(old(self).generation.pending@.contains(o));
                    let j = choose|j: int|
                        0 <= j < old(self).generation.pending@.len() && old(
                            self,
                        ).generation.pending@[j] == o;
                }
                if self.meshing.pending@.contains(o) {
                    assert(old(self).meshing.pending@.contains(o));
                    let j = choose|j: int|
                        0 <= j < old(self).meshing.pending@.len() && old(
                            self,
                        ).meshing.pending@[j] == o;
                }
            }
            assert forall|i: int|
                0 <= i < self.meshing.in_flight@.len() implies !self.meshing.pending@.contains(
                #[trigger] self.meshing.in_flight@[i]) by {
                let o = self.meshing.in_flight@[i];
                if self.meshing.pending@.contains(o) {
                    assert(old(self).meshing.pending@.contains(o));
                    let j = choose|j: int|
                        0 <= j < old(self).meshing.pending@.len() && old(
                            self,
                        ).meshing.pending@[j] == o;
                }
            }
            assert forall|i: int|
                0 <= i < self.meshing.pending@.len() implies !self.meshing.in_flight@.contains(
                #[trigger] self.meshing.pending@[i]) by {
                let o = self.meshing.pending@[i];
                assert(old(self).meshing.pending@.contains(o));
                let j = choose|j: int|
                    0 <= j < old(self).meshing.pending@.len() && old(self).meshing.pending@[j] == o;
            }
        }
        let in_flight_somewhere = vec_contains(&self.generation.in_flight, id) || vec_contains(
            &self.meshing.in_flight,
            id,
        );
        if in_flight_somewhere {
            if !vec_contains(&self.doomed, id) {
                self.doomed.push(id);
                proof {
                    lemma_push_distinct(old(self).doomed@, id);
                    assert(self.doomed@.last() == id);
                    assert forall|i: int|
                        0 <= i < self.doomed@.len() implies self.generation.in_flight@.contains(
                        #[trigger] self.doomed@[i]) || self.meshing.in_flight@.contains(
                        self.doomed@[i]) by {
                        if i < old(self).doomed@.len() {
                            assert(old(self).doomed@.contains(old(self).doomed@[i]));
                        }
                    }
                    assert forall|o: ChunkId|
                        o != id implies self.doomed@.contains(o) == old(self).doomed@.contains(
                        o,
                    ) by {
                        lemma_push_contains(old(self).doomed@, id, o);
                    }
                }
            } else {
                proof {
                    assert(self.doomed@.contains(id));
                }
            }
        } else {
            proof {
                assert(!self.doomed@.contains(id)) by {
                    if self.doomed@.contains(id) {
                        let j = choose|j: int|
                            0 <= j < self.doomed@.len() && self.doomed@[j] == id;
                        assert(old(self).doomed@[j] == id);
                    }
                }
            }
        }
    }
}

/// After removing `id` from a queue, every index-based disjointness and
/// containment fact of the manager's well-formedness can be rebuilt from
/// the membership facts the removal guarantees.
proof fn lemma_members_disjoint_after_removal(pre: PipelineManager, post: PipelineManager, id: ChunkId)
    requires
        pre.wf(),
        post.generation.pending@ == pre.generation.pending@,
        post.meshing.pending@ == pre.meshing.pending@,
        post.chunks@ == pre.chunks@,
        distinct_ids(post.generation.in_flight@),
        distinct_ids(post.meshing.in_flight@),
        distinct_ids(post.doomed@),
        post.generation.in_flight@.len() <= pre.generation.in_flight@.len(),
        post.meshing.in_flight@.len() <= pre.meshing.in_flight@.len(),
        post.generation.limit == pre.generation.limit,
        post.meshing.limit == pre.meshing.limit,
        forall|o: ChunkId|
            post.generation.in_flight@.contains(o) ==> pre.generation.in_flight@.contains(o),
        forall|o: ChunkId|
            post.meshing.in_flight@.contains(o) ==> pre.meshing.in_flight@.contains(o),
        forall|o: ChunkId|
            #[trigger] post.doomed@.contains(o) ==> pre.doomed@.contains(o) && o != id,
        forall|o: ChunkId|
            o != id ==> pre.generation.in_flight@.contains(o) == post.generation.in_flight@.contains(
                o,
            ),
        forall|o: ChunkId|
            o != id ==> pre.meshing.in_flight@.contains(o) == post.meshing.in_flight@.contains(o),
    ensures
        post.wf(),
{
    assert forall|i: int|
        0 <= i < post.generation.pending@.len() implies !post.generation.in_flight@.contains(
        #[trigger] post.generation.pending@[i]) by {
        let o = post.generation.pending@[i];
        assert(pre.generation.pending@.contains(o));
        if post.generation.in_flight@.contains(o) {
            assert(pre.generation.in_flight@.contains(o));
        }
    }
    assert forall|i: int|
        0 <= i < post.generation.in_flight@.len() implies ({
            &&& !post.generation.pending@.contains(#[trigger] post.generation.in_flight@[i])
            &&& !post.meshing.pending@.contains(post.generation.in_flight@[i])
            &&& !post.meshing.in_flight@.contains(post.generation.in_flight@[i])
        }) by {
        let o = post.generation.in_flight@[i];
        assert(post.generation.in_flight@.contains(o));
        assert(pre.generation.in_flight@.contains(o));
        let j = choose|j: int|
            0 <= j < pre.generation.in_flight@.len() && pre.generation.in_flight@[j] == o;
        if post.meshing.in_flight@.contains(o) {
            assert(pre.meshing.in_flight@.contains(o));
            let k2 = choose|k2: int|
                0 <= k2 < pre.meshing.in_flight@.len() && pre.meshing.in_flight@[k2] == o;
        }
    }
    assert forall|i: int|
        0 <= i < post.generation.pending@.len() implies ({
            &&& !post.meshing.pending@.contains(#[trigger] post.generation.pending@[i])
            &&& !post.meshing.in_flight@.contains(post.generation.pending@[i])
        }) by {
        let o = post.generation.pending@[i];
        assert(pre.generation.pending@.contains(o));
        let j = choose|j: int|
            0 <= j < pre.generation.pending@.len() && pre.generation.pending@[j] == o;
        if post.meshing.in_flight@.contains(o) {
            assert(pre.meshing.in_flight@.contains(o));
        }
    }
    assert forall|i: int|
        0 <= i < post.meshing.pending@.len() implies !post.meshing.in_flight@.contains(
        #[trigger] post.meshing.pending@[i]) by {
        let o = post.meshing.pending@[i];
        assert(pre.meshing.pending@.contains(o));
        if post.meshing.in_flight@.contains(o) {
            assert(pre.meshing.in_flight@.contains(o));
        }
    }
    assert forall|i: int|
        0 <= i < post.meshing.in_flight@.len() implies !post.meshing.pending@.contains(
        #[trigger] post.meshing.in_flight@[i]) by {
        let o = post.meshing.in_flight@[i];
        assert(post.meshing.in_flight@.contains(o));
        assert(pre.meshing.in_flight@.contains(o));
        let j = choose|j: int|
            0 <= j < pre.meshing.in_flight@.len() && pre.meshing.in_flight@[j] == o;
    }
    assert forall|i: int|
        0 <= i < post.meshing.pending@.len() implies post.has_content(
        #[trigger] post.meshing.pending@[i]) by {
        let o = post.meshing.pending@[i];
        assert(pre.meshing.pending@.contains(o));
        let j = choose|j: int|
            0 <= j < pre.meshing.pending@.len() && pre.meshing.pending@[j] == o;
        assert(pre.has_content(o));
    }
    assert forall|i: int|
        0 <= i < post.doomed@.len() implies post.generation.in_flight@.contains(
        #[trigger] post.doomed@[i]) || post.meshing.in_flight@.contains(post.doomed@[i]) by {
        let o = post.doomed@[i];
        assert(post.doomed@.contains(o));
        assert(pre.doomed@.contains(o) && o != id);
        let j = choose|j: int| 0 <= j < pre.doomed@.len() && pre.doomed@[j] == o;
        assert(pre.generation.in_flight@.contains(o) || pre.meshing.in_flight@.contains(o));
    }
}

/// In every well-formed manager state, neither stage has more in-flight
/// work than its configured limit, however much work is pending.
pub proof fn lemma_concurrency_bound(m: PipelineManager)
    requires
        m.wf(),
    ensures
        m.generation.in_flight@.len() <= m.generation.limit,
        m.meshing.in_flight@.len() <= m.meshing.limit,
{
}

/// A sequence without duplicates holds an id at most once.
proof fn lemma_distinct_count(s: Seq<ChunkId>, id: ChunkId)
    requires
        distinct_ids(s),
    ensures
        s.to_multiset().count(id) == (if s.contains(id) {
            1int
        } else {
            0int
        }),
{
    broadcast use vstd::seq_lib::group_to_multiset_ensures;

    assert(s.no_duplicates());
    s.lemma_multiset_has_no_duplicates();
    if s.contains(id) {
        assert(s.to_multiset().count(id) > 0);
        assert(s.to_multiset().contains(id));
    }
}

/// A chunk id a stage tracks is held exactly once across its pending
/// queue and its in-flight set — never duplicated; one it does not track
/// is held zero times. Together with what `complete_generation` ensures,
/// a chunk that finishes generating is handed to the meshing stage
/// exactly once.
pub proof fn lemma_stage_tracks_once(q: StageQueue, id: ChunkId)
    requires
        q.wf(),
    ensures
        q.pending@.to_multiset().count(id) + q.in_flight@.to_multiset().count(id) == (
        if q.contains_id(id) {
            1int
        } else {
            0int
        }),
{
    lemma_distinct_count(q.pending@, id);
    lemma_distinct_count(q.in_flight@, id);
    if q.pending@.contains(id) {
        let i = choose|i: int| 0 <= i < q.pending@.len() && q.pending@[i] == id;
        assert(!q.in_flight@.contains(q.pending@[i]));
    }
}


/// The squared distance between two chunk coordinates: the default
/// priority key.
pub open spec fn spec_dist2(a: ChunkId, center: ChunkId) -> int {
    (a.x - center.x) * (a.x - center.x) + (a.y - center.y) * (a.y - center.y) + (a.z - center.z) * (
    a.z - center.z)
}

/// Whether `a` comes no later than `b` under the chosen priority order:
/// by squared distance to `center`, nearest first or farthest first.
pub open spec fn ordered_by(a: ChunkId, b: ChunkId, center: ChunkId, nearest_first: bool) -> bool {
    if nearest_first {
        spec_dist2(a, center) <= spec_dist2(b, center)
    } else {
        spec_dist2(a, center) >= spec_dist2(b, center)
    }
}

/// The squared distance of a chunk coordinate to a reference point.
pub fn dist2(a: ChunkId, center: ChunkId) -> (r: i128)
    ensures
        r == spec_dist2(a, center),
{
    let dx = a.x as i128 - center.x as i128;
    let dy = a.y as i128 - center.y as i128;
    let dz = a.z as i128 - center.z as i128;
    proof {
        assert(dx * dx <= 0x1_0000_0000_0000_0000 && dx * dx >= 0) by (nonlinear_arith)
            requires
                -0x1_0000_0000 <= dx <= 0x1_0000_0000,
        ;
        assert(dy * dy <= 0x1_0000_0000_0000_0000 && dy * dy >= 0) by (nonlinear_arith)
            requires
                -0x1_0000_0000 <= dy <= 0x1_0000_0000,
        ;
        assert(dz * dz <= 0x1_0000_0000_0000_0000 && dz * dz >= 0) by (nonlinear_arith)
            requires
                -0x1_0000_0000 <= dz <= 0x1_0000_0000,
        ;
    }
    dx * dx + dy * dy + dz * dz
}

/// Sorts a distinct id queue by squared distance to `center`, nearest or
/// farthest first: the result is ordered and holds exactly the same ids.
fn sort_ids(v: &mut Vec<ChunkId>, center: ChunkId, nearest_first: bool)
    requires
        distinct_ids(old(v)@),
    ensures
        distinct_ids(final(v)@),
        final(v)@.len() == old(v)@.len(),
        forall|o: ChunkId| final(v)@.contains(o) == old(v)@.contains(o),
        forall|i: int, j: int|
            0 <= i < j < final(v)@.len() ==> ordered_by(
                final(v)@[i],
                final(v)@[j],
                center,
                nearest_first,
            ),
{
    let ghost v0 = v@;
    let mut out: Vec<ChunkId> = Vec::new();
    let mut k: usize = 0;
    while k < v.len()
        invariant
            v@ == v0,
            v0 == old(v)@,
            distinct_ids(v0),
            k <= v0.len(),
            out@.len() == k,
            forall|o: ChunkId| #[trigger] out@.contains(o) ==> v0.take(k as int).contains(o),
            forall|i: int| 0 <= i < k ==> out@.contains(#[trigger] v0[i]),
            distinct_ids(out@),
            forall|i: int, j: int|
                0 <= i < j < out@.len() ==> ordered_by(out@[i], out@[j], center, nearest_first),
        decreases v0.len() - k,
    {
        let id = v[k];
        let key = dist2(id, center);
        let mut pos: usize = 0;
        while pos < out.len()
            invariant
                pos <= out@.len(),
                forall|i: int|
                    0 <= i < pos ==> ordered_by(#[trigger] out@[i], id, center, nearest_first),
                key == spec_dist2(id, center),
            ensures
                pos <= out@.len(),
                forall|i: int|
                    0 <= i < pos ==> ordered_by(#[trigger] out@[i], id, center, nearest_first),
                pos < out@.len() ==> ordered_by(id, out@[pos as int], center, nearest_first),
            decreases out@.len() - pos,
        {
            let d = dist2(out[pos], center);
            let keep_before = if nearest_first {
                d <= key
            } else {
                d >= key
            };
            if !keep_before {
                break ;
            }
            pos = pos + 1;
        }
        let ghost o0 = out@;
        out.insert(pos, id);
        proof {
            assert(out@ == o0.insert(pos as int, id));
            o0.insert_ensures(pos as int, id);
            assert(v0.take(k + 1).drop_last() == v0.take(k as int));
            assert(v0.take(k + 1).last() == v0[k as int]);
            assert(!o0.contains(id)) by {
                if o0.contains(id) {
                    assert(v0.take(k as int).contains(id));
                    let i = choose|i: int| 0 <= i < k && v0.take(k as int)[i] == id;
                    assert(v0[i] == id && v0[k as int] == id);
                }
            }
            assert forall|i: int, j: int|
                0 <= i < j < out@.len() implies ordered_by(
                out@[i],
                out@[j],
                center,
                nearest_first,
            ) by {
                if i < pos {
                    assert(out@[i] == o0[i]);
                } else if i == pos {
                    assert(out@[i] == id);
                } else {
                    assert(out@[i] == o0[i - 1]);
                }
                if j < pos {
                    assert(out@[j] == o0[j]);
                } else if j == pos {
                    assert(out@[j] == id);
                } else {
                    assert(out@[j] == o0[j - 1]);
                }
                if i == pos && j > pos {
                    assert(ordered_by(id, o0[pos as int], center, nearest_first));
                    if j - 1 > pos {
                        assert(ordered_by(o0[pos as int], o0[j - 1], center, nearest_first));
                    }
                }
                if i < pos && j == pos {
                    assert(ordered_by(o0[i], id, center, nearest_first));
                }
                if i < pos && j > pos {
                    assert(ordered_by(o0[i], o0[j - 1], center, nearest_first));
                }
                if i < pos && j < pos {
                    assert(ordered_by(o0[i], o0[j], center, nearest_first));
                }
                if i > pos && j > pos {
                    assert(ordered_by(o0[i - 1], o0[j - 1], center, nearest_first));
                }
            }
            assert forall|i: int, j: int| 0 <= i < j < out@.len() implies out@[i] != out@[j] by {
                if i < pos {
                    assert(out@[i] == o0[i]);
                } else if i == pos {
                    assert(out@[i] == id);
                } else {
                    assert(out@[i] == o0[i - 1]);
                }
                if j < pos {
                    assert(out@[j] == o0[j]);
                } else if j == pos {
                    assert(out@[j] == id);
                } else {
                    assert(out@[j] == o0[j - 1]);
                }
                if i != pos && j != pos {
                    assert(out@[i] != out@[j]);
                } else {
                    let other = if i == pos {
                        out@[j]
                    } else {
                        out@[i]
                    };
                    assert(o0.contains(other));
                }
            }
            assert forall|o: ChunkId| #[trigger] out@.contains(o) implies v0.take(
                k + 1,
            ).contains(o) by {
                let i = choose|i: int| 0 <= i < out@.len() && out@[i] == o;
                if i < pos {
                    assert(o0[i] == o);
                    assert(o0.contains(o));
                    assert(v0.take(k as int).contains(o));
                    let j = choose|j: int| 0 <= j < k && v0.take(k as int)[j] == o;
                    assert(v0.take(k + 1)[j] == o);
                } else if i == pos {
                    assert(v0.take(k + 1)[k as int] == id);
                } else {
                    assert(o0[i - 1] == o);
                    assert(o0.contains(o));
                    assert(v0.take(k as int).contains(o));
                    let j = choose|j: int| 0 <= j < k && v0.take(k as int)[j] == o;
                    assert(v0.take(k + 1)[j] == o);
                }
            }
            assert forall|i: int| 0 <= i < k + 1 implies out@.contains(#[trigger] v0[i]) by {
                if i < k {
                    assert(o0.contains(v0[i]));
                    let j = choose|j: int| 0 <= j < o0.len() && o0[j] == v0[i];
                    if j < pos {
                        assert(out@[j] == v0[i]);
                    } else {
                        assert(out@[j + 1] == v0[i]);
                    }
                } else {
                    assert(out@[pos as int] == v0[i]);
                }
            }
        }
        k = k + 1;
    }
    proof {
        assert(v0.take(v0.len() as int) == v0);
    }
    let ghost outv = out@;
    *v = out;
    proof {
        assert forall|o: ChunkId| v@.contains(o) == v0.contains(o) by {
            if v0.contains(o) {
                let i = choose|i: int| 0 <= i < v0.len() && v0[i] == o;
                assert(v@.contains(v0[i]));
            }
            if v@.contains(o) {
                assert(v0.take(v0.len() as int).contains(o));
            }
        }
    }
}

impl PipelineManager {
    /// Re-sorts the pending generation queue by squared distance to a
    /// reference point, nearest first or farthest first; the queue keeps
    /// exactly its ids. Each tick sorts once, before any new work starts,
    /// so every task started in the tick reflects the same snapshot.
    pub fn prioritize_generation(&mut self, center: ChunkId, nearest_first: bool)
        requires
            old(self).wf(),
        ensures
            final(self).wf(),
            final(self).generation.pending@.len() == old(self).generation.pending@.len(),
            forall|o: ChunkId|
                final(self).generation.pending@.contains(o) == old(
                    self,
                ).generation.pending@.contains(o),
            forall|i: int, j: int|
                0 <= i < j < final(self).generation.pending@.len() ==> ordered_by(
                    final(self).generation.pending@[i],
                    final(self).generation.pending@[j],
                    center,
                    nearest_first,
                ),
            final(self).generation.in_flight@ == old(self).generation.in_flight@,
            final(self).generation.limit == old(self).generation.limit,
            final(self).meshing == old(self).meshing,
            final(self).chunks@ == old(self).chunks@,
            final(self).doomed@ == old(self).doomed@,
    {
        sort_ids(&mut self.generation.pending, center, nearest_first);
        proof {
            lemma_members_after_reorder(*old(self), *self);
        }
    }

    /// Re-sorts the pending meshing queue by squared distance to a
    /// reference point, exactly as `prioritize_generation` does for the
    /// generation stage.
    pub fn prioritize_meshing(&mut self, center: ChunkId, nearest_first: bool)
        requires
            old(self).wf(),
        ensures
            final(self).wf(),
            final(self).meshing.pending@.len() == old(self).meshing.pending@.len(),
            forall|o: ChunkId|
                final(self).meshing.pending@.contains(o) == old(self).meshing.pending@.contains(o),
            forall|i: int, j: int|
                0 <= i < j < final(self).meshing.pending@.len() ==> ordered_by(
                    final(self).meshing.pending@[i],
                    final(self).meshing.pending@[j],
                    center,
                    nearest_first,
                ),
            final(self).meshing.in_flight@ == old(self).meshing.in_flight@,
            final(self).meshing.limit == old(self).meshing.limit,
            final(self).generation == old(self).generation,
            final(self).chunks@ == old(self).chunks@,
            final(self).doomed@ == old(self).doomed@,
    {
        sort_ids(&mut self.meshing.pending, center, nearest_first);
        proof {
            lemma_members_after_reorder(*old(self), *self);
        }
    }
}

/// Reordering a pending queue without changing its ids preserves the
/// manager's well-formedness.
proof fn lemma_members_after_reorder(pre: PipelineManager, post: PipelineManager)
    requires
        pre.wf(),
        distinct_ids(post.generation.pending@),
        distinct_ids(post.meshing.pending@),
        forall|o: ChunkId|
            #[trigger] post.generation.pending@.contains(o) == pre.generation.pending@.contains(o),
        forall|o: ChunkId|
            #[trigger] post.meshing.pending@.contains(o) == pre.meshing.pending@.contains(o),
        post.generation.in_flight@ == pre.generation.in_flight@,
        post.meshing.in_flight@ == pre.meshing.in_flight@,
        post.generation.limit == pre.generation.limit,
        post.meshing.limit == pre.meshing.limit,
        post.chunks@ == pre.chunks@,
        post.doomed@ == pre.doomed@,
    ensures
        post.wf(),
{
    assert forall|i: int|
        0 <= i < post.generation.pending@.len() implies ({
            &&& !post.generation.in_flight@.contains(#[trigger] post.generation.pending@[i])
            &&& !post.meshing.pending@.contains(post.generation.pending@[i])
            &&& !post.meshing.in_flight@.contains(post.generation.pending@[i])
        }) by {
        let o = post.generation.pending@[i];
        assert(post.generation.pending@.contains(o));
        assert(pre.generation.pending@.contains(o));
        let j = choose|j: int|
            0 <= j < pre.generation.pending@.len() && pre.generation.pending@[j] == o;
    }
    assert forall|i: int|
        0 <= i < post.generation.in_flight@.len() implies ({
            &&& !post.generation.pending@.contains(#[trigger] post.generation.in_flight@[i])
            &&& !post.meshing.pending@.contains(post.generation.in_flight@[i])
        }) by {
        let o = post.generation.in_flight@[i];
        if post.generation.pending@.contains(o) {
            assert(pre.generation.pending@.contains(o));
            let j = choose|j: int|
                0 <= j < pre.generation.pending@.len() && pre.generation.pending@[j] == o;
        }
        if post.meshing.pending@.contains(o) {
            assert(pre.meshing.pending@.contains(o));
            let j = choose|j: int|
                0 <= j < pre.meshing.pending@.len() && pre.meshing.pending@[j] == o;
        }
    }
    assert forall|i: int|
        0 <= i < post.meshing.pending@.len() implies ({
            &&& !post.meshing.in_flight@.contains(#[trigger] post.meshing.pending@[i])
            &&& post.has_content(post.meshing.pending@[i])
        }) by {
        let o = post.meshing.pending@[i];
        assert(post.meshing.pending@.contains(o));
        assert(pre.meshing.pending@.contains(o));
        let j = choose|j: int|
            0 <= j < pre.meshing.pending@.len() && pre.meshing.pending@[j] == o;
        assert(pre.has_content(o));
    }
    assert forall|i: int|
        0 <= i < post.meshing.in_flight@.len() implies !post.meshing.pending@.contains(
        #[trigger] post.meshing.in_flight@[i]) by {
        let o = post.meshing.in_flight@[i];
        if post.meshing.pending@.contains(o) {
            assert(pre.meshing.pending@.contains(o));
            let j = choose|j: int|
                0 <= j < pre.meshing.pending@.len() && pre.meshing.pending@[j] == o;
        }
    }
}

} // verus!
