use phoxels::chunk::manager::{
    ChunkId, ConfigError, GenCompletion, GeneratorLimits, MeshCompletion, MeshRequest,
    PipelineManager,
};
use phoxels::chunk::mesh_gen::make_mesh;
use phoxels::chunk::ChunkData;

fn limits(g: usize, m: usize) -> GeneratorLimits {
    GeneratorLimits { max_generating_chunks: g, max_meshing_chunks: m }
}

fn manager(g: usize, m: usize) -> PipelineManager {
    PipelineManager::new(limits(g, m)).unwrap()
}

#[test]
fn zero_limits_are_rejected() {
    assert!(matches!(
        PipelineManager::new(limits(0, 4)),
        Err(ConfigError::ZeroGeneratingLimit)
    ));
    assert!(matches!(
        PipelineManager::new(limits(4, 0)),
        Err(ConfigError::ZeroMeshingLimit)
    ));
    assert!(PipelineManager::new(limits(1, 1)).is_ok());
}

#[test]
fn concurrency_limit_is_never_passed() {
    let mut mgr = manager(2, 1);
    for i in 0..10 {
        assert!(mgr.request_generation(ChunkId::new(i, 0, 0)));
    }
    // a second request for a queued id changes nothing
    assert!(!mgr.request_generation(ChunkId::new(0, 0, 0)));
    let starts = mgr.take_generation_starts();
    assert_eq!(starts.len(), 2);
    // the stage is saturated: nothing more starts this tick
    assert_eq!(mgr.take_generation_starts().len(), 0);
    // finishing one task frees exactly one slot
    assert_eq!(
        mgr.complete_generation(starts[0], ChunkData::empty()),
        GenCompletion::Installed
    );
    assert_eq!(mgr.take_generation_starts().len(), 1);
    // the meshing stage has its own limit of one
    assert_eq!(mgr.take_meshing_starts().len(), 1);
    assert_eq!(mgr.take_meshing_starts().len(), 0);
}

#[test]
fn generation_hands_off_to_meshing_exactly_once() {
    let mut mgr = manager(4, 4);
    let id = ChunkId::new(3, 1, -2);
    assert!(mgr.request_generation(id));
    let starts = mgr.take_generation_starts();
    assert_eq!(starts, vec![id]);
    assert_eq!(
        mgr.complete_generation(id, ChunkData::empty()),
        GenCompletion::Installed
    );
    // the id now waits to be meshed, exactly once
    assert_eq!(mgr.request_meshing(id), MeshRequest::AlreadyQueued);
    assert!(!mgr.request_generation(id));
    let mesh_starts = mgr.take_meshing_starts();
    assert_eq!(mesh_starts, vec![id]);
    assert_eq!(mgr.take_meshing_starts(), vec![]);
    assert_eq!(mgr.complete_meshing(id), MeshCompletion::Done);
    // a second completion report for the same id is stale
    assert_eq!(mgr.complete_meshing(id), MeshCompletion::Unknown);
}

#[test]
fn meshing_without_content_is_refused() {
    let mut mgr = manager(2, 2);
    let id = ChunkId::new(1, 2, 3);
    assert_eq!(mgr.request_meshing(id), MeshRequest::MissingContent);
    assert!(mgr.notify_content_ready(id, ChunkData::empty()));
    assert_eq!(mgr.request_meshing(id), MeshRequest::AlreadyQueued);
}

#[test]
fn unknown_completions_change_nothing() {
    let mut mgr = manager(2, 2);
    let id = ChunkId::new(5, 5, 5);
    assert_eq!(
        mgr.complete_generation(id, ChunkData::empty()),
        GenCompletion::Unknown
    );
    assert_eq!(mgr.complete_meshing(id), MeshCompletion::Unknown);
    assert!(!mgr.fail_generation(id));
}

#[test]
fn failed_generation_leaves_chunk_absent_and_retryable() {
    let mut mgr = manager(1, 1);
    let id = ChunkId::new(-4, 0, 9);
    assert!(mgr.request_generation(id));
    assert_eq!(mgr.take_generation_starts(), vec![id]);
    assert!(mgr.fail_generation(id));
    assert!(mgr.content_of(id).is_none());
    // the failed chunk may be requested again
    assert!(mgr.request_generation(id));
}

#[test]
fn removal_discards_in_flight_results() {
    let mut mgr = manager(2, 2);
    let id = ChunkId::new(0, 0, 1);
    assert!(mgr.request_generation(id));
    assert_eq!(mgr.take_generation_starts(), vec![id]);
    mgr.notify_removed(id);
    // the task cannot be cancelled, but its result is discarded
    assert_eq!(
        mgr.complete_generation(id, ChunkData::empty()),
        GenCompletion::Discarded
    );
    assert!(mgr.content_of(id).is_none());
    assert_eq!(mgr.take_meshing_starts(), vec![]);
}

#[test]
fn removal_forgets_pending_work_and_content() {
    let mut mgr = manager(4, 4);
    let id = ChunkId::new(2, 0, 2);
    let other = ChunkId::new(3, 0, 3);
    assert!(mgr.notify_content_ready(id, ChunkData::empty()));
    assert!(mgr.notify_content_ready(other, ChunkData::empty()));
    mgr.notify_removed(id);
    assert!(mgr.content_of(id).is_none());
    assert!(mgr.content_of(other).is_some());
    assert_eq!(mgr.take_meshing_starts(), vec![other]);
}

#[test]
fn priority_order_is_applied_before_starting() {
    let mut mgr = manager(3, 3);
    let far = ChunkId::new(10, 0, 10);
    let near = ChunkId::new(1, 0, 0);
    let mid = ChunkId::new(4, 4, 0);
    assert!(mgr.request_generation(far));
    assert!(mgr.request_generation(near));
    assert!(mgr.request_generation(mid));
    let center = ChunkId::new(0, 0, 0);
    mgr.prioritize_generation(center, true);
    assert_eq!(mgr.take_generation_starts(), vec![near, mid, far]);

    let mut mgr2 = manager(3, 3);
    assert!(mgr2.request_generation(far));
    assert!(mgr2.request_generation(near));
    assert!(mgr2.request_generation(mid));
    mgr2.prioritize_generation(center, false);
    assert_eq!(mgr2.take_generation_starts(), vec![far, mid, near]);
}

#[test]
fn full_pipeline_walk() {
    let mut mgr = manager(2, 2);
    let ids = [ChunkId::new(0, 0, 0), ChunkId::new(1, 0, 0), ChunkId::new(2, 0, 0)];
    for id in ids {
        assert!(mgr.request_generation(id));
    }
    let mut meshed = 0;
    // tick until all three chunks are generated and meshed
    for _ in 0..10 {
        for id in mgr.take_generation_starts() {
            assert_eq!(
                mgr.complete_generation(id, ChunkData::empty()),
                GenCompletion::Installed
            );
        }
        for id in mgr.take_meshing_starts() {
            let out = make_mesh(mgr.content_of(id).unwrap());
            assert_eq!(out.vertices.len(), 0);
            assert_eq!(mgr.complete_meshing(id), MeshCompletion::Done);
            meshed += 1;
        }
    }
    assert_eq!(meshed, 3);
}

#[test]
fn replacing_content_keeps_a_single_queue_entry() {
    let mut mgr = manager(2, 2);
    let id = ChunkId::new(7, 0, 7);
    assert!(mgr.notify_content_ready(id, ChunkData::empty()));
    // replacing the content of an already queued chunk installs the new
    // data but does not queue the chunk a second time
    assert!(!mgr.notify_content_ready(id, ChunkData::empty()));
    assert_eq!(mgr.take_meshing_starts(), vec![id]);
    assert_eq!(mgr.take_meshing_starts(), vec![]);
}

#[test]
fn content_of_returns_the_installed_chunk() {
    let mut mgr = manager(2, 2);
    let id = ChunkId::new(0, 0, 0);
    assert!(mgr.content_of(id).is_none());
    let mut data = ChunkData::empty();
    data.set_block(1, 2, 3, SlabBlock);
    assert!(mgr.notify_content_ready(id, data));
    let stored = mgr.content_of(id).unwrap();
    assert_eq!(stored.texture(1, 2, 3), 4);
    assert_eq!(stored.texture(0, 0, 0), 0);
}

#[derive(Clone, Copy)]
struct SlabBlock;

impl phoxels::block::Block for SlabBlock {
    fn spec_id(&self) -> u8 {
        4
    }
    fn spec_solid(&self) -> bool {
        true
    }
    fn spec_transparent(&self) -> bool {
        false
    }
    fn id(&self) -> u8 {
        4
    }
    fn is_solid(&self) -> bool {
        true
    }
    fn is_transparent(&self) -> bool {
        false
    }
}
