//! Following the player.

use vstd::prelude::*;
use crate::fixed::{Dir2, Vec2, SCALE};
use crate::movement::MovementController;

verus! {

/// Makes an entity walk toward the player until it is near enough.
#[derive(Clone, Copy, PartialEq, Eq, Structural, Debug)]
pub struct FollowPlayer {
    /// The follower stops where the square of its distance to the player is
    /// no more than this.
    pub until_distance: i64,
}

/// The intent of a follower at `position` while the player is at `player`:
/// none where the player is near enough, and the direction to the player
/// otherwise.
pub open spec fn follow_intent(follow: FollowPlayer, position: Vec2, player: Vec2) -> (int, int) {
    let player_direction = player.spec_minus(position);
    if player_direction.spec_length_squared() <= follow.until_distance * SCALE {
        (0int, 0int)
    } else {
        player_direction.spec_normalize_or_zero()
    }
}

/// Sets the movement intent of a follower. Without a player (`None`) the
/// intent stays as it is.
pub fn follow_player(
    follow: &FollowPlayer,
    controller: &mut MovementController,
    position: Vec2,
    player: Option<Vec2>,
)
    ensures
        final(controller).0@ == match player {
            Some(player) => follow_intent(*follow, position, player),
            None => old(controller).0@,
        },
{
    let player: Vec2 = match player {
        Some(player) => player,
        None => { return ; },
    };
    let player_direction: Vec2 = player.minus(&position);
    let near: bool = follow.until_distance >= 0 && player_direction.length_squared() <= (
    follow.until_distance as u128) * 1_000_000;
    proof {
        assert(follow.until_distance * SCALE == follow.until_distance * 1_000_000);
        assert(player_direction.spec_length_squared() >= 0) by (nonlinear_arith)
            requires
                player_direction.spec_length_squared() == player_direction.x * player_direction.x
                    + player_direction.y * player_direction.y,
        ;
    }
    if near {
        controller.0 = Dir2::zero();
    } else {
        controller.0 = player_direction.normalize_or_zero();
    }
}

} // verus!
