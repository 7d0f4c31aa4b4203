use steel_core::blocks::{
    BlockRef, BlockStateId, Direction, FireBlock, FluidInfo, NetherPortalBlock, PotentSulfurBlock,
    PotentSulfurState, RedstoneTorchBlock, RedstoneWallTorchBlock, SulfurSurroundings, TorchState,
    WallSupport,
};

const WATER_SOURCE: FluidInfo = FluidInfo { is_empty: false, is_source: true, is_water: true };
const EMPTY: FluidInfo = FluidInfo { is_empty: true, is_source: false, is_water: false };
const FLOWING: FluidInfo = FluidInfo { is_empty: false, is_source: false, is_water: true };

fn around(above: FluidInfo, below: FluidInfo, continuous: bool, periodic: bool) -> SulfurSurroundings {
    SulfurSurroundings {
        above_fluid: above,
        below_fluid: below,
        below_causes_continuous_eruptions: continuous,
        below_causes_periodic_eruptions: periodic,
    }
}

#[test]
fn potent_sulfur_states() {
    let b = PotentSulfurBlock::new(BlockRef { id: 1 });
    assert_eq!(PotentSulfurBlock::valid_state(PotentSulfurState::Wet, &around(EMPTY, EMPTY, true, true)), PotentSulfurState::Dry);
    assert_eq!(PotentSulfurBlock::valid_state(PotentSulfurState::Wet, &around(FLOWING, EMPTY, true, true)), PotentSulfurState::Dry);
    assert_eq!(PotentSulfurBlock::valid_state(PotentSulfurState::Dry, &around(WATER_SOURCE, EMPTY, true, true)), PotentSulfurState::Continuous);
    assert_eq!(PotentSulfurBlock::valid_state(PotentSulfurState::Dry, &around(WATER_SOURCE, FLOWING, true, true)), PotentSulfurState::Wet);
    assert_eq!(PotentSulfurBlock::valid_state(PotentSulfurState::Dry, &around(WATER_SOURCE, WATER_SOURCE, false, true)), PotentSulfurState::Dormant);
    assert_eq!(PotentSulfurBlock::valid_state(PotentSulfurState::Erupting, &around(WATER_SOURCE, EMPTY, false, true)), PotentSulfurState::Erupting);
    assert_eq!(b.update_shape(PotentSulfurState::Continuous, &around(WATER_SOURCE, EMPTY, false, false)), PotentSulfurState::Wet);
    assert_eq!(b.get_state_for_placement(PotentSulfurState::Dry, &around(WATER_SOURCE, EMPTY, false, true)), Some(PotentSulfurState::Dormant));
}

#[test]
fn torches() {
    let t = RedstoneTorchBlock::new(BlockRef { id: 2 });
    assert_eq!(t.get_state_for_placement(true), Some(TorchState { lit: true, facing: None }));
    assert_eq!(t.get_state_for_placement(false), None);
    let w = RedstoneWallTorchBlock::new(BlockRef { id: 3 });
    let only_west = WallSupport { north: false, south: false, west: true, east: false };
    let all = WallSupport { north: true, south: true, west: true, east: true };
    let none = WallSupport { north: false, south: false, west: false, east: false };
    assert_eq!(w.get_state_for_placement(Direction::East, &all), Some(TorchState { lit: true, facing: Some(Direction::East) }));
    assert_eq!(w.get_state_for_placement(Direction::Up, &all), Some(TorchState { lit: true, facing: Some(Direction::North) }));
    assert_eq!(w.get_state_for_placement(Direction::East, &only_west), Some(TorchState { lit: true, facing: Some(Direction::West) }));
    assert_eq!(w.get_state_for_placement(Direction::North, &none), None);
}

#[test]
fn portal_and_fire() {
    let p = NetherPortalBlock::new(BlockRef { id: 4 });
    assert_eq!(p.update_shape(BlockStateId(10), true, BlockStateId(0)), BlockStateId(0));
    assert_eq!(p.update_shape(BlockStateId(10), false, BlockStateId(0)), BlockStateId(10));
    assert_eq!(p.get_state_for_placement(), None);
    let f = FireBlock::new(BlockRef { id: 5 });
    assert_eq!(f.get_state_for_placement(BlockStateId(7)), Some(BlockStateId(7)));
    let c = f.portal_frame(BlockRef { id: 6 }, BlockRef { id: 4 });
    assert_eq!((c.min_width, c.max_width, c.min_height, c.max_height), (2, 21, 3, 21));
    assert_eq!(c.frame, BlockRef { id: 6 });
    assert_eq!(c.portal, BlockRef { id: 4 });
}
