//! Placement and shape-update rules of a few blocks.
//!
//! The world and the block registry are not part of this library: each rule
//! takes what it reads of the world as plain values (what fluid is where,
//! which neighbouring faces give support) and returns the block state, or
//! the property values of the state, that the block takes.

use vstd::prelude::*;

verus! {

/// A block of the registry, by its numeric id.
#[derive(Clone, Copy, Debug, PartialEq, Eq, Structural)]
pub struct BlockRef {
    pub id: u16,
}

/// A block state of the registry, by its numeric id.
#[derive(Clone, Copy, Debug, PartialEq, Eq, Structural)]
pub struct BlockStateId(pub u16);

/// The six directions.
#[derive(Clone, Copy, Debug, PartialEq, Eq, Structural)]
pub enum Direction {
    Down,
    Up,
    North,
    South,
    West,
    East,
}

impl Direction {
    /// Whether the direction lies in the horizontal plane.
    pub open spec fn spec_is_horizontal(self) -> bool {
        self is North || self is South || self is West || self is East
    }

    /// Whether the direction lies in the horizontal plane.
    pub fn is_horizontal(&self) -> (r: bool)
        ensures
            r == self.spec_is_horizontal(),
    {
        match self {
            Direction::North | Direction::South | Direction::West | Direction::East => true,
            _ => false,
        }
    }
}

/// What the rules read of a fluid state.
#[derive(Clone, Copy, Debug, PartialEq, Eq, Structural)]
pub struct FluidInfo {
    pub is_empty: bool,
    pub is_source: bool,
    pub is_water: bool,
}

/// The values of the potent sulfur block's state property.
#[derive(Clone, Copy, Debug, PartialEq, Eq, Structural)]
pub enum PotentSulfurState {
    Dry,
    Wet,
    Dormant,
    Erupting,
    Continuous,
}

/// What the potent sulfur block reads of its neighbours: the fluid above,
/// the fluid below, and the geyser tags of the block below.
#[derive(Clone, Copy, Debug, PartialEq, Eq, Structural)]
pub struct SulfurSurroundings {
    pub above_fluid: FluidInfo,
    pub below_fluid: FluidInfo,
    pub below_causes_continuous_eruptions: bool,
    pub below_causes_periodic_eruptions: bool,
}

/// The state a potent sulfur block in state `current` takes: dry without a
/// water source above; else, where the fluid below is empty or a source,
/// continuous above a block causing continuous eruptions, and above one
/// causing periodic eruptions dormant unless already erupting; wet
/// otherwise.
pub open spec fn spec_sulfur_state(current: PotentSulfurState, s: SulfurSurroundings) -> PotentSulfurState {
    let fluid_ok = s.below_fluid.is_empty || s.below_fluid.is_source;
    if !s.above_fluid.is_source || !s.above_fluid.is_water {
        PotentSulfurState::Dry
    } else if s.below_causes_continuous_eruptions && fluid_ok {
        PotentSulfurState::Continuous
    } else if s.below_causes_periodic_eruptions && fluid_ok {
        if current == PotentSulfurState::Erupting {
            PotentSulfurState::Erupting
        } else {
            PotentSulfurState::Dormant
        }
    } else {
        PotentSulfurState::Wet
    }
}

/// A potent sulfur block is dry exactly when the fluid above it is not a
/// water source: lava, a flowing fluid or no fluid above leave it dry, and
/// with a water source above it never is.
pub proof fn law_sulfur_dry_without_water_source(current: PotentSulfurState, s: SulfurSurroundings)
    ensures
        !s.above_fluid.is_water ==> spec_sulfur_state(current, s) == PotentSulfurState::Dry,
        !s.above_fluid.is_source ==> spec_sulfur_state(current, s) == PotentSulfurState::Dry,
        s.above_fluid.is_water && s.above_fluid.is_source ==> spec_sulfur_state(current, s)
            != PotentSulfurState::Dry,
{
}

/// Under a water source, the block below decides: it erupts continuously
/// exactly over a block causing continuous eruptions with an empty or source
/// fluid; it is wet whenever the fluid below is neither empty nor a source,
/// or the block below causes no eruptions; and it is erupting only where it
/// was erupting already.
pub proof fn law_sulfur_under_water(current: PotentSulfurState, s: SulfurSurroundings)
    requires
        s.above_fluid.is_water,
        s.above_fluid.is_source,
    ensures
        (spec_sulfur_state(current, s) == PotentSulfurState::Continuous) <==> (
        s.below_causes_continuous_eruptions && (s.below_fluid.is_empty || s.below_fluid.is_source)),
        !(s.below_fluid.is_empty || s.below_fluid.is_source) ==> spec_sulfur_state(current, s)
            == PotentSulfurState::Wet,
        !s.below_causes_continuous_eruptions && !s.below_causes_periodic_eruptions
            ==> spec_sulfur_state(current, s) == PotentSulfurState::Wet,
        spec_sulfur_state(current, s) == PotentSulfurState::Erupting ==> current
            == PotentSulfurState::Erupting,
{
}

/// Recomputing the state among the same surroundings changes nothing: a
/// shape update right after placement, or two in a row, keep the state.
pub proof fn law_sulfur_state_settles(current: PotentSulfurState, s: SulfurSurroundings)
    ensures
        spec_sulfur_state(spec_sulfur_state(current, s), s) == spec_sulfur_state(current, s),
{
}

/// The state never depends on the current state except to keep an eruption
/// going: two blocks in different states among the same surroundings end in
/// the same state unless one of them was erupting.
pub proof fn law_sulfur_state_forgets(a: PotentSulfurState, b: PotentSulfurState, s: SulfurSurroundings)
    requires
        a != PotentSulfurState::Erupting,
        b != PotentSulfurState::Erupting,
    ensures
        spec_sulfur_state(a, s) == spec_sulfur_state(b, s),
{
}

/// The potent sulfur block.
pub struct PotentSulfurBlock {
    block: BlockRef,
}

impl PotentSulfurBlock {
    /// The behavior of `block`.
    pub fn new(block: BlockRef) -> (b: Self)
        ensures
            b.block() == block,
    {
        PotentSulfurBlock { block }
    }

    /// The block this behavior belongs to.
    pub closed spec fn block(&self) -> BlockRef {
        self.block
    }

    /// The state a block in state `current` takes among `s`.
    pub fn valid_state(current: PotentSulfurState, s: &SulfurSurroundings) -> (r: PotentSulfurState)
        ensures
            r == spec_sulfur_state(current, *s),
    {
        if !s.above_fluid.is_source || !s.above_fluid.is_water {
            return PotentSulfurState::Dry;
        }
        let fluid_ok = s.below_fluid.is_empty || s.below_fluid.is_source;
        if s.below_causes_continuous_eruptions && fluid_ok {
            return PotentSulfurState::Continuous;
        }
        if s.below_causes_periodic_eruptions && fluid_ok {
            if current == PotentSulfurState::Erupting {
                return current;
            }
            return PotentSulfurState::Dormant;
        }
        PotentSulfurState::Wet
    }

    /// The state of a newly placed block, from the block's default state.
    pub fn get_state_for_placement(&self, default_state: PotentSulfurState, s: &SulfurSurroundings) -> (r: Option<
        PotentSulfurState,
    >)
        ensures
            r == Some(spec_sulfur_state(default_state, *s)),
    {
        Some(Self::valid_state(default_state, s))
    }

    /// The state after a neighbour changed.
    pub fn update_shape(&self, state: PotentSulfurState, s: &SulfurSurroundings) -> (r: PotentSulfurState)
        ensures
            r == spec_sulfur_state(state, *s),
    {
        Self::valid_state(state, s)
    }
}

/// The property values of a redstone torch: lit, and for a wall torch the
/// horizontal direction it faces.
#[derive(Clone, Copy, Debug, PartialEq, Eq, Structural)]
pub struct TorchState {
    pub lit: bool,
    pub facing: Option<Direction>,
}

/// The standing redstone torch.
pub struct RedstoneTorchBlock {
    block: BlockRef,
}

impl RedstoneTorchBlock {
    /// The behavior of `block`.
    pub fn new(block: BlockRef) -> (b: Self)
        ensures
            b.block() == block,
    {
        RedstoneTorchBlock { block }
    }

    /// The block this behavior belongs to.
    pub closed spec fn block(&self) -> BlockRef {
        self.block
    }

    /// A standing torch is placed lit where the block below supports it.
    pub fn get_state_for_placement(&self, supported_below: bool) -> (r: Option<TorchState>)
        ensures
            r == (if supported_below {
                Some(TorchState { lit: true, facing: None })
            } else {
                None
            }),
    {
        if !supported_below {
            return None;
        }
        Some(TorchState { lit: true, facing: None })
    }
}

/// Which horizontal facings of a wall torch have a sturdy face behind them.
#[derive(Clone, Copy, Debug, PartialEq, Eq, Structural)]
pub struct WallSupport {
    pub north: bool,
    pub south: bool,
    pub west: bool,
    pub east: bool,
}

impl WallSupport {
    /// Whether a torch facing `d` survives.
    pub open spec fn spec_supports(self, d: Direction) -> bool {
        match d {
            Direction::North => self.north,
            Direction::South => self.south,
            Direction::West => self.west,
            Direction::East => self.east,
            _ => false,
        }
    }

    /// Whether a torch facing `d` survives.
    pub fn supports(&self, d: Direction) -> (r: bool)
        ensures
            r == self.spec_supports(d),
    {
        match d {
            Direction::North => self.north,
            Direction::South => self.south,
            Direction::West => self.west,
            Direction::East => self.east,
            _ => false,
        }
    }
}

/// The facing a wall torch is placed with: the clicked face where it is
/// horizontal and supported, else the first supported of north, south,
/// west and east, else none.
pub open spec fn spec_wall_torch_facing(clicked_face: Direction, support: WallSupport) -> Option<Direction> {
    if clicked_face.spec_is_horizontal() && support.spec_supports(clicked_face) {
        Some(clicked_face)
    } else if support.north {
        Some(Direction::North)
    } else if support.south {
        Some(Direction::South)
    } else if support.west {
        Some(Direction::West)
    } else if support.east {
        Some(Direction::East)
    } else {
        None
    }
}

/// The wall redstone torch.
pub struct RedstoneWallTorchBlock {
    block: BlockRef,
}

impl RedstoneWallTorchBlock {
    /// The behavior of `block`.
    pub fn new(block: BlockRef) -> (b: Self)
        ensures
            b.block() == block,
    {
        RedstoneWallTorchBlock { block }
    }

    /// The block this behavior belongs to.
    pub closed spec fn block(&self) -> BlockRef {
        self.block
    }

    /// A wall torch is placed lit, facing away from a supporting wall.
    pub fn get_state_for_placement(&self, clicked_face: Direction, support: &WallSupport) -> (r: Option<
        TorchState,
    >)
        ensures
            r == (match spec_wall_torch_facing(clicked_face, *support) {
                Some(d) => Some(TorchState { lit: true, facing: Some(d) }),
                None => None,
            }),
    {
        if clicked_face.is_horizontal() {
            if support.supports(clicked_face) {
                return Some(TorchState { lit: true, facing: Some(clicked_face) });
            }
        }
        let order = [Direction::North, Direction::South, Direction::West, Direction::East];
        let mut i: usize = 0;
        while i < 4
            invariant
                i <= 4,
                order@ == seq![Direction::North, Direction::South, Direction::West, Direction::East],
                !(clicked_face.spec_is_horizontal() && support.spec_supports(clicked_face)),
                forall|k: int| 0 <= k < i ==> !support.spec_supports(order@[k]),
            decreases 4 - i,
        {
            let facing = order[i];
            if support.supports(facing) {
                return Some(TorchState { lit: true, facing: Some(facing) });
            }
            i = i + 1;
        }
        None
    }
}

/// The nether portal block.
pub struct NetherPortalBlock {
    block: BlockRef,
}

impl NetherPortalBlock {
    /// The behavior of `block`.
    pub fn new(block: BlockRef) -> (b: Self)
        ensures
            b.block() == block,
    {
        NetherPortalBlock { block }
    }

    /// The block this behavior belongs to.
    pub closed spec fn block(&self) -> BlockRef {
        self.block
    }

    /// A portal block turns into air (`air_state`, the default state of air)
    /// when a neighbour becomes air, and keeps its state otherwise.
    pub fn update_shape(&self, state: BlockStateId, neighbor_is_air: bool, air_state: BlockStateId) -> (r: BlockStateId)
        ensures
            r == (if neighbor_is_air {
                air_state
            } else {
                state
            }),
    {
        if neighbor_is_air {
            return air_state;
        }
        state
    }

    /// A portal block is never placed directly.
    pub fn get_state_for_placement(&self) -> (r: Option<BlockStateId>)
        ensures
            r is None,
    {
        None
    }
}

/// The frame that lighting a fire may complete into a portal: its size
/// limits and the blocks of the frame and of the portal.
#[derive(Clone, Copy, Debug, PartialEq, Eq, Structural)]
pub struct PortalFrameConfig {
    pub min_width: u32,
    pub max_width: u32,
    pub min_height: u32,
    pub max_height: u32,
    pub frame: BlockRef,
    pub portal: BlockRef,
}

/// The fire block.
pub struct FireBlock {
    block: BlockRef,
}

impl FireBlock {
    /// The behavior of `block`.
    pub fn new(block: BlockRef) -> (b: Self)
        ensures
            b.block() == block,
    {
        FireBlock { block }
    }

    /// The block this behavior belongs to.
    pub closed spec fn block(&self) -> BlockRef {
        self.block
    }

    /// Fire is placed in its default state.
    pub fn get_state_for_placement(&self, default_state: BlockStateId) -> (r: Option<BlockStateId>)
        ensures
            r == Some(default_state),
    {
        Some(default_state)
    }

    /// The nether portal frame that a fire placed inside may light: 2 to 21
    /// blocks wide and 3 to 21 high, of `obsidian`, filled with
    /// `nether_portal`.
    pub fn portal_frame(&self, obsidian: BlockRef, nether_portal: BlockRef) -> (c: PortalFrameConfig)
        ensures
            c == (PortalFrameConfig {
                min_width: 2,
                max_width: 21,
                min_height: 3,
                max_height: 21,
                frame: obsidian,
                portal: nether_portal,
            }),
    {
        PortalFrameConfig {
            min_width: 2,
            max_width: 21,
            min_height: 3,
            max_height: 21,
            frame: obsidian,
            portal: nether_portal,
        }
    }
}

} // verus!
