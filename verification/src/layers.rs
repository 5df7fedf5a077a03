//! Collision layers: which colliders may meet which.

use vstd::prelude::*;

verus! {

/// The layers of the game. Each has one bit of a mask, in the order written.
#[derive(Clone, Copy, PartialEq, Eq, Structural, Debug)]
pub enum GameLayer {
    PlayerMovement,
    PlayerHitbox,
    Enemies,
    LevelBounds,
}

impl GameLayer {
    /// The bit of this layer.
    pub open spec fn spec_to_bits(self) -> u32 {
        match self {
            GameLayer::PlayerMovement => 1,
            GameLayer::PlayerHitbox => 2,
            GameLayer::Enemies => 4,
            GameLayer::LevelBounds => 8,
        }
    }

    /// The bit of this layer.
    pub fn to_bits(&self) -> (bits: u32)
        ensures
            bits == self.spec_to_bits(),
    {
        match self {
            GameLayer::PlayerMovement => 1,
            GameLayer::PlayerHitbox => 2,
            GameLayer::Enemies => 4,
            GameLayer::LevelBounds => 8,
        }
    }

    /// The bits of all layers together.
    pub fn all_bits() -> (bits: u32)
        ensures
            bits == 15,
    {
        15
    }
}

/// A set of layers, one bit each.
#[derive(Clone, Copy, PartialEq, Eq, Structural, Debug)]
pub struct LayerMask(pub u32);

/// The bits of the layers in `layers`, joined.
pub open spec fn joined_bits(layers: Seq<GameLayer>) -> u32
    decreases layers.len(),
{
    if layers.len() == 0 {
        0
    } else {
        joined_bits(layers.drop_last()) | layers.last().spec_to_bits()
    }
}

impl LayerMask {
    /// The mask of one layer.
    pub fn from_layer(layer: GameLayer) -> (mask: LayerMask)
        ensures
            mask.0 == layer.spec_to_bits(),
    {
        LayerMask(layer.to_bits())
    }

    /// The mask of several layers.
    pub fn from_layers(layers: &Vec<GameLayer>) -> (mask: LayerMask)
        ensures
            mask.0 == joined_bits(layers@),
    {
        let mut bits: u32 = 0;
        let mut i: usize = 0;
        while i < layers.len()
            invariant
                i <= layers.len(),
                bits == joined_bits(layers@.take(i as int)),
            decreases layers.len() - i,
        {
            proof {
                let upto = layers@.take(i as int + 1);
                assert(upto.drop_last() == layers@.take(i as int));
                assert(upto.last() == layers@[i as int]);
            }
            bits = bits | layers[i].to_bits();
            i = i + 1;
        }
        proof {
            assert(layers@.take(i as int) == layers@);
        }
        LayerMask(bits)
    }
}

/// The layers a collider belongs to and the layers it can meet.
#[derive(Clone, Copy, PartialEq, Eq, Structural, Debug)]
pub struct CollisionLayers {
    pub memberships: LayerMask,
    pub filters: LayerMask,
}

impl CollisionLayers {
    pub fn new(memberships: LayerMask, filters: LayerMask) -> (layers: CollisionLayers)
        ensures
            layers.memberships == memberships,
            layers.filters == filters,
    {
        CollisionLayers { memberships, filters }
    }
}

} // verus!
