//! Offsets and lengths of the flat state vector.
//!
//! Layout: slot 0 holds the game type (unused), slots 1 and 2 the blue and
//! orange scores, then the boost pads, then the ball and the inverted ball
//! (nine values each), then one packet per player.
use vstd::prelude::*;

verus! {

/// Number of boost pads on the field.
pub const BOOST_PAD_LENGTH: usize = 34;

/// Length of the window handed to the ball decoder; the ball and the inverted
/// ball each occupy half of it.
pub const BALL_STATE_LENGTH: usize = 18;

/// Values per car physics object: position, quaternion, linear and angular velocity.
pub const PLAYER_CAR_STATE_LENGTH: usize = 13;

/// Values per player after the two physics objects.
pub const PLAYER_TERTIARY_INFO_LENGTH: usize = 11;

/// Values per player packet: id, team, two physics objects, tertiary info.
pub const PLAYER_INFO_LENGTH: usize = 2 + 2 * PLAYER_CAR_STATE_LENGTH + PLAYER_TERTIARY_INFO_LENGTH;

/// Capacity reserved for a state vector with up to six players.
pub const MAX_SIZE: usize = 3 + BOOST_PAD_LENGTH + BALL_STATE_LENGTH + 6 * PLAYER_INFO_LENGTH;

/// Offset of the first boost pad.
pub const BOOST_PADS_START: usize = 3;

/// Offset of the ball.
pub const BALL_START: usize = 37;

/// Offset of the inverted ball.
pub const INVERTED_BALL_START: usize = 46;

/// Offset of the first player packet.
pub const PLAYERS_START: usize = 55;

/// Shortest state vector that the decoder accepts: the inverted ball's window
/// of `BALL_STATE_LENGTH` values must fit.
pub const MIN_STATE_LENGTH: usize = 64;

/// Number of whole player packets in a state vector of `len` values.
pub open spec fn player_count(len: int) -> int {
    (len - PLAYERS_START) / (PLAYER_INFO_LENGTH as int)
}

/// Offset of player packet `k`.
pub open spec fn player_offset(k: int) -> int {
    PLAYERS_START + (PLAYER_INFO_LENGTH as int) * k
}

/// Number of player packets in a state vector of `state_val_len` values: what
/// is left after the header, the boost pads and the ball window, divided by
/// the packet length and rounded towards zero.
pub fn num_player_packets(state_val_len: usize) -> (n: usize)
    requires
        PLAYERS_START <= state_val_len <= i32::MAX,
    ensures
        n == player_count(state_val_len as int),
        player_offset(n as int) <= state_val_len < player_offset(n + 1),
{
    let start: usize = BOOST_PADS_START;
    let num_ball_packets: usize = 1;
    let n = (state_val_len - num_ball_packets * BALL_STATE_LENGTH - start - BOOST_PAD_LENGTH)
        / PLAYER_INFO_LENGTH;
    proof {
        let r: int = state_val_len - 55;
        assert(0 <= r - 39 * (r / 39) < 39) by (nonlinear_arith)
            requires
                r >= 0,
        ;
    }
    n
}

} // verus!
