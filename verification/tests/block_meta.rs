use phoxels::block::{Block, BlockMeta};

#[derive(Clone, Copy)]
struct Solid(u8);

impl Block for Solid {
    fn spec_id(&self) -> u8 {
        self.0
    }
    fn spec_solid(&self) -> bool {
        true
    }
    fn spec_transparent(&self) -> bool {
        false
    }
    fn id(&self) -> u8 {
        self.0
    }
    fn is_solid(&self) -> bool {
        true
    }
    fn is_transparent(&self) -> bool {
        false
    }
}

#[derive(Clone, Copy)]
struct Glass(u8);

impl Block for Glass {
    fn spec_id(&self) -> u8 {
        self.0
    }
    fn spec_solid(&self) -> bool {
        true
    }
    fn spec_transparent(&self) -> bool {
        true
    }
    fn id(&self) -> u8 {
        self.0
    }
    fn is_solid(&self) -> bool {
        true
    }
    fn is_transparent(&self) -> bool {
        true
    }
}

#[derive(Clone, Copy)]
struct Air;

impl Block for Air {
    fn spec_id(&self) -> u8 {
        0
    }
    fn spec_solid(&self) -> bool {
        false
    }
    fn spec_transparent(&self) -> bool {
        true
    }
    fn id(&self) -> u8 {
        0
    }
    fn is_solid(&self) -> bool {
        false
    }
    fn is_transparent(&self) -> bool {
        true
    }
}

#[test]
fn empty_meta() {
    let air = BlockMeta::empty();
    assert!(air.is_transparent());
    assert!(!air.is_solid());
}

#[test]
fn meta_from_block_round_trips_classification() {
    let m = BlockMeta::from_block(Solid(7));
    assert!(m.is_solid());
    assert!(!m.is_transparent());

    let g = BlockMeta::from_block(Glass(3));
    assert!(g.is_solid());
    assert!(g.is_transparent());

    let a = BlockMeta::from_block(Air);
    assert!(!a.is_solid());
    assert!(a.is_transparent());
    assert_eq!(a, BlockMeta::empty());
}

#[test]
fn meta_bits_layout() {
    assert_eq!(BlockMeta::from_block(Solid(1)), BlockMeta(3));
    assert_eq!(BlockMeta::from_block(Glass(1)), BlockMeta(1));
}
