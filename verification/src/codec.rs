//! Writing records out as the flat state vector and reading them back.
use vstd::prelude::*;

use crate::layout::{
    num_player_packets, player_count, player_offset, BALL_START, BOOST_PADS_START,
    BOOST_PAD_LENGTH, INVERTED_BALL_START, MAX_SIZE, MIN_STATE_LENGTH, PLAYERS_START,
    PLAYER_INFO_LENGTH,
};
use crate::order::{is_stable_sort_order, sort_by_key_stable};
use crate::records::{
    ball_at, player_at, vec3_at, BallRecord, CarRecord, PlayerRecord, Quat, StateModel,
    StateRecord, Vec3,
};

verus! {

/// The packets of `players`, one after the other.
pub open spec fn players_flat<T>(players: Seq<PlayerRecord<T>>) -> Seq<T>
    decreases players.len(),
{
    if players.len() == 0 {
        Seq::empty()
    } else {
        players_flat(players.drop_last()) + players.last().flat()
    }
}

/// The flat state vector of `m`, with `game_type` in slot 0.
pub open spec fn state_flat<T>(m: StateModel<T>, game_type: T) -> Seq<T> {
    seq![game_type, m.blue_score, m.orange_score] + m.boost_pads + m.ball.flat()
        + m.inverted_ball.flat() + players_flat(m.players)
}

/// The state read from the flat vector `s`: scores from slots 1 and 2, the
/// pads and their reversal, the ball at its offset and the inverted ball nine
/// values later, and every whole player packet in order.
pub open spec fn state_from_flat<T>(s: Seq<T>) -> StateModel<T> {
    StateModel {
        blue_score: s[1],
        orange_score: s[2],
        boost_pads: s.subrange(3, 37),
        inverted_boost_pads: s.subrange(3, 37).reverse(),
        ball: ball_at(s, BALL_START as int),
        inverted_ball: ball_at(s, INVERTED_BALL_START as int),
        players: Seq::new(
            player_count(s.len() as int) as nat,
            |k: int| player_at(s, player_offset(k)),
        ),
    }
}

fn push_vec3<T: Copy>(out: &mut Vec<T>, v: &Vec3<T>)
    ensures
        final(out)@ == old(out)@ + v.flat(),
{
    out.push(v.x);
    out.push(v.y);
    out.push(v.z);
    assert(out@ =~= old(out)@ + v.flat());
}

fn push_quat<T: Copy>(out: &mut Vec<T>, q: &Quat<T>)
    ensures
        final(out)@ == old(out)@ + q.flat(),
{
    out.push(q.w);
    out.push(q.x);
    out.push(q.y);
    out.push(q.z);
    assert(out@ =~= old(out)@ + q.flat());
}

fn push_ball<T: Copy>(out: &mut Vec<T>, ball: &BallRecord<T>)
    ensures
        final(out)@ == old(out)@ + ball.flat(),
{
    push_vec3(out, &ball.position);
    push_vec3(out, &ball.linear_velocity);
    push_vec3(out, &ball.angular_velocity);
    assert(out@ =~= old(out)@ + ball.flat());
}

fn push_car<T: Copy>(out: &mut Vec<T>, car: &CarRecord<T>)
    ensures
        final(out)@ == old(out)@ + car.flat(),
{
    push_vec3(out, &car.position);
    push_quat(out, &car.quaternion);
    push_vec3(out, &car.linear_velocity);
    push_vec3(out, &car.angular_velocity);
    assert(out@ =~= old(out)@ + car.flat());
}

fn push_player<T: Copy>(out: &mut Vec<T>, p: &PlayerRecord<T>)
    ensures
        final(out)@ == old(out)@ + p.flat(),
{
    out.push(p.car_id);
    out.push(p.team_num);
    push_car(out, &p.car_data);
    push_car(out, &p.inverted_car_data);
    out.push(p.match_goals);
    out.push(p.match_saves);
    out.push(p.match_shots);
    out.push(p.match_demolishes);
    out.push(p.boost_pickups);
    out.push(p.is_demoed);
    out.push(p.on_ground);
    out.push(p.ball_touched);
    out.push(p.has_jump);
    out.push(p.has_flip);
    out.push(p.boost_amount);
    assert(out@ =~= old(out)@ + p.flat());
}

/// The ball's nine values: position, linear velocity, angular velocity.
pub fn get_ball_object_floats<T: Copy>(ball: &BallRecord<T>) -> (floats: Vec<T>)
    ensures
        floats@ == ball.flat(),
{
    let mut floats: Vec<T> = Vec::with_capacity(9);
    push_ball(&mut floats, ball);
    assert(floats@ =~= ball.flat());
    floats
}

/// A car's thirteen values: position, quaternion (w, x, y, z), linear
/// velocity, angular velocity.
pub fn get_car_physics_object_floats<T: Copy>(data: &CarRecord<T>) -> (floats: Vec<T>)
    ensures
        floats@ == data.flat(),
{
    let mut floats: Vec<T> = Vec::with_capacity(13);
    push_car(&mut floats, data);
    assert(floats@ =~= data.flat());
    floats
}

/// A player's packet of thirty-nine values.
pub fn get_player_floats<T: Copy>(player: &PlayerRecord<T>) -> (floats: Vec<T>)
    ensures
        floats@ == player.flat(),
{
    let mut floats: Vec<T> = Vec::with_capacity(PLAYER_INFO_LENGTH);
    push_player(&mut floats, player);
    assert(floats@ =~= player.flat());
    floats
}

/// The flat state vector of `state`: `game_type`, the two scores, the boost
/// pads, the ball, the inverted ball, then each player's packet in order.
pub fn get_state_floats<T: Copy>(state: &StateRecord<T>, game_type: T) -> (state_floats: Vec<T>)
    ensures
        state_floats@ == state_flat(state@, game_type),
        state_floats@.len() == 3 + state.boost_pads@.len() + 18 + 39 * state.players@.len(),
        state_floats@[0] == game_type,
        state_floats@[1] == state.blue_score,
        state_floats@[2] == state.orange_score,
        forall|i: int|
            0 <= i < state.boost_pads@.len() ==> #[trigger] state_floats@[3 + i] == state.boost_pads@[i],
        ball_at(state_floats@, 3 + state.boost_pads@.len() as int) == state.ball,
        ball_at(state_floats@, 3 + state.boost_pads@.len() as int + 9) == state.inverted_ball,
        forall|k: int|
            0 <= k < state.players@.len() ==> player_at(
                state_floats@,
                3 + state.boost_pads@.len() + 18 + 39 * k,
            ) == #[trigger] state.players@[k],
{
    let mut state_floats: Vec<T> = Vec::with_capacity(MAX_SIZE);
    state_floats.push(game_type);
    state_floats.push(state.blue_score);
    state_floats.push(state.orange_score);
    let mut i: usize = 0;
    while i < state.boost_pads.len()
        invariant
            i <= state.boost_pads@.len(),
            state_floats@ == seq![game_type, state.blue_score, state.orange_score]
                + state.boost_pads@.take(i as int),
        decreases state.boost_pads@.len() - i,
    {
        state_floats.push(state.boost_pads[i]);
        assert(state.boost_pads@.take(i + 1) =~= state.boost_pads@.take(i as int).push(
            state.boost_pads@[i as int],
        ));
        i += 1;
    }
    assert(state.boost_pads@.take(i as int) =~= state.boost_pads@);
    push_ball(&mut state_floats, &state.ball);
    push_ball(&mut state_floats, &state.inverted_ball);
    let ghost header = state_floats@;
    let mut k: usize = 0;
    while k < state.players.len()
        invariant
            k <= state.players@.len(),
            state_floats@ == header + players_flat(state.players@.take(k as int)),
        decreases state.players@.len() - k,
    {
        push_player(&mut state_floats, &state.players[k]);
        assert(state.players@.take(k + 1).drop_last() =~= state.players@.take(k as int));
        k += 1;
    }
    assert(state.players@.take(k as int) =~= state.players@);
    assert(state_floats@ =~= state_flat(state@, game_type));
    proof {
        lemma_encode_fields(state@, game_type);
        let e = state_floats@;
        let b: int = 3 + state.boost_pads@.len() as int;
        crate::records::lemma_ball_at_fields(e, b);
        crate::records::lemma_ball_at_fields(e, b + 9);
        assert(ball_at(e, b) == state.ball);
        assert(ball_at(e, b + 9) == state.inverted_ball);
    }
    state_floats
}

fn vec3_from<T: Copy>(s: &[T], i: usize) -> (v: Vec3<T>)
    requires
        i + 3 <= s@.len(),
    ensures
        v == vec3_at(s@, i as int),
{
    Vec3 { x: s[i], y: s[i + 1], z: s[i + 2] }
}

/// The ball read from the first nine values of `ball_data`.
pub fn decode_ball_data<T: Copy>(ball_data: &[T]) -> (ball: BallRecord<T>)
    requires
        9 <= ball_data@.len(),
    ensures
        ball == ball_at(ball_data@, 0),
{
    BallRecord {
        position: vec3_from(ball_data, 0),
        linear_velocity: vec3_from(ball_data, 3),
        angular_velocity: vec3_from(ball_data, 6),
    }
}

/// A car physics object read from the first thirteen values of `car_data`.
pub fn decode_car_data<T: Copy>(car_data: &[T]) -> (car: CarRecord<T>)
    requires
        13 <= car_data@.len(),
    ensures
        car == crate::records::car_at(car_data@, 0),
{
    CarRecord {
        position: vec3_from(car_data, 0),
        quaternion: Quat { w: car_data[3], x: car_data[4], y: car_data[5], z: car_data[6] },
        linear_velocity: vec3_from(car_data, 7),
        angular_velocity: vec3_from(car_data, 10),
    }
}

/// A player read from the first thirty-nine values of `full_player_data`:
/// id, team, car data, inverted car data, then the eleven tertiary values.
pub fn decode_player_precompute<T: Copy>(full_player_data: &[T]) -> (player: PlayerRecord<T>)
    requires
        PLAYER_INFO_LENGTH <= full_player_data@.len(),
    ensures
        player == player_at(full_player_data@, 0),
{
    let mut start: usize = 2;
    let car_data = decode_car_data(vstd::slice::slice_subrange(full_player_data, start, start + 13));
    start += 13;
    let inverted_car_data = decode_car_data(
        vstd::slice::slice_subrange(full_player_data, start, start + 13),
    );
    start += 13;
    let tertiary_data = vstd::slice::slice_subrange(full_player_data, start, start + 11);
    PlayerRecord {
        car_id: full_player_data[0],
        team_num: full_player_data[1],
        car_data,
        inverted_car_data,
        match_goals: tertiary_data[0],
        match_saves: tertiary_data[1],
        match_shots: tertiary_data[2],
        match_demolishes: tertiary_data[3],
        boost_pickups: tertiary_data[4],
        is_demoed: tertiary_data[5],
        on_ground: tertiary_data[6],
        ball_touched: tertiary_data[7],
        has_jump: tertiary_data[8],
        has_flip: tertiary_data[9],
        boost_amount: tertiary_data[10],
    }
}

impl<T: Copy> StateRecord<T> {
    /// The state that `state_floats` encodes. Players come in packet order; a
    /// trailing partial packet is ignored.
    pub fn new_from_vec(state_floats: Vec<T>) -> (state: Self)
        requires
            MIN_STATE_LENGTH <= state_floats@.len() <= i32::MAX,
        ensures
            state@ == state_from_flat(state_floats@),
            state@.wf(),
            state.blue_score == state_floats@[1],
            state.orange_score == state_floats@[2],
            state.boost_pads@.len() == 34,
            forall|i: int| 0 <= i < 34 ==> #[trigger] state.boost_pads@[i] == state_floats@[3 + i],
            state.inverted_boost_pads@.len() == 34,
            forall|i: int| 0 <= i < 34 ==> #[trigger] state.inverted_boost_pads@[i] == state_floats@[36 - i],
            state.ball == ball_at(state_floats@, 37),
            state.inverted_ball == ball_at(state_floats@, 46),
            state.players@.len() == (state_floats@.len() - 55) / 39,
            forall|k: int|
                0 <= k < state.players@.len() ==> #[trigger] state.players@[k] == player_at(state_floats@, 55 + 39 * k),
    {
        let state_vals = state_floats.as_slice();
        let state_val_len = state_vals.len();
        let num_player_packets = num_player_packets(state_val_len);

        let mut start: usize = BOOST_PADS_START;
        let mut boost_pads: Vec<T> = Vec::with_capacity(BOOST_PAD_LENGTH);
        let mut i: usize = 0;
        while i < BOOST_PAD_LENGTH
            invariant
                i <= 34,
                start == 3,
                state_vals@.len() >= 64,
                boost_pads@ == state_vals@.subrange(3, 3 + i as int),
            decreases 34 - i,
        {
            boost_pads.push(state_vals[start + i]);
            assert(boost_pads@ =~= state_vals@.subrange(3, 3 + i + 1));
            i += 1;
        }
        let mut inverted_boost_pads: Vec<T> = Vec::with_capacity(BOOST_PAD_LENGTH);
        let mut j: usize = 0;
        while j < BOOST_PAD_LENGTH
            invariant
                j <= 34,
                boost_pads@.len() == 34,
                inverted_boost_pads@ == boost_pads@.reverse().take(j as int),
            decreases 34 - j,
        {
            inverted_boost_pads.push(boost_pads[BOOST_PAD_LENGTH - 1 - j]);
            assert(inverted_boost_pads@ =~= boost_pads@.reverse().take(j + 1));
            j += 1;
        }
        assert(boost_pads@.reverse().take(34) =~= boost_pads@.reverse());
        start += BOOST_PAD_LENGTH;

        let ball = decode_ball_data(vstd::slice::slice_subrange(state_vals, start, start + 18));
        start += 9;
        let inverted_ball = decode_ball_data(
            vstd::slice::slice_subrange(state_vals, start, start + 18),
        );
        start += 9;

        let mut players: Vec<PlayerRecord<T>> = Vec::with_capacity(num_player_packets);
        let mut k: usize = 0;
        while k < num_player_packets
            invariant
                k <= num_player_packets,
                start == PLAYERS_START,
                num_player_packets == player_count(state_vals@.len() as int),
                player_offset(num_player_packets as int) <= state_vals@.len() <= i32::MAX,
                players@.len() == k,
                forall|m: int|
                    0 <= m < k ==> #[trigger] players@[m] == player_at(
                        state_vals@,
                        player_offset(m),
                    ),
            decreases num_player_packets - k,
        {
            assert(player_offset(k + 1) <= player_offset(num_player_packets as int)) by (nonlinear_arith)
                requires
                    k < num_player_packets,
            ;
            assert(PLAYER_INFO_LENGTH == 39);
            assert(player_offset(k + 1) == 55 + 39 * k + 39);
            let offset = start + PLAYER_INFO_LENGTH * k;
            let player = decode_player_precompute(
                vstd::slice::slice_subrange(state_vals, offset, offset + PLAYER_INFO_LENGTH),
            );
            players.push(player);
            k += 1;
        }

        let state = StateRecord {
            blue_score: state_vals[1],
            orange_score: state_vals[2],
            boost_pads,
            inverted_boost_pads,
            ball,
            inverted_ball,
            players,
        };
        assert(state@.players =~= state_from_flat(state_floats@).players);
        proof {
            lemma_decode_fields(state_floats@);
        }
        state
    }

    /// Overwrites every field of `self` with the state that `state_vals` encodes.
    pub fn decode(&mut self, state_vals: Vec<T>)
        requires
            MIN_STATE_LENGTH <= state_vals@.len() <= i32::MAX,
        ensures
            final(self)@ == state_from_flat(state_vals@),
            final(self).blue_score == state_vals@[1],
            final(self).orange_score == state_vals@[2],
            final(self).boost_pads@.len() == 34,
            forall|i: int| 0 <= i < 34 ==> #[trigger] final(self).boost_pads@[i] == state_vals@[3 + i],
            final(self).inverted_boost_pads@.len() == 34,
            forall|i: int| 0 <= i < 34 ==> #[trigger] final(self).inverted_boost_pads@[i] == state_vals@[36 - i],
            final(self).ball == ball_at(state_vals@, 37),
            final(self).inverted_ball == ball_at(state_vals@, 46),
            final(self).players@.len() == (state_vals@.len() - 55) / 39,
            forall|k: int|
                0 <= k < final(self).players@.len() ==> #[trigger] final(self).players@[k] == player_at(state_vals@, 55 + 39 * k),
    {
        *self = Self::new_from_vec(state_vals);
    }

    /// Reorders the players by car id, `car_ids[i]` being the id of
    /// `players[i]`: increasing ids, equal ids in packet order. Every other
    /// field stays as it was.
    pub fn sort_players_by_car_id(&mut self, car_ids: &Vec<i32>)
        requires
            car_ids@.len() == old(self).players@.len(),
        ensures
            exists|order: Seq<usize>|
                #![trigger is_stable_sort_order(car_ids@, order)]
                is_stable_sort_order(car_ids@, order) && final(self).players@ == order.map_values(
                    |i: usize| old(self).players@[i as int],
                ),
            final(self)@ == (StateModel { players: final(self)@.players, ..old(self)@ }),
            final(self).blue_score == old(self).blue_score,
            final(self).orange_score == old(self).orange_score,
            final(self).boost_pads@ == old(self).boost_pads@,
            final(self).inverted_boost_pads@ == old(self).inverted_boost_pads@,
            final(self).ball == old(self).ball,
            final(self).inverted_ball == old(self).inverted_ball,
            final(self).players@.len() == old(self).players@.len(),
            exists|order: Seq<usize>|
                #![trigger is_stable_sort_order(car_ids@, order)]
                {
                    &&& is_stable_sort_order(car_ids@, order)
                    &&& order.len() == car_ids@.len()
                    &&& forall|i: int| 0 <= i < order.len() ==> #[trigger] order[i] < car_ids@.len()
                    &&& forall|i: int|
                        0 <= i < order.len() ==> #[trigger] final(self).players@[i] == old(
                            self,
                        ).players@[order[i] as int]
                    &&& forall|i: int, j: int|
                        0 <= i < j < order.len() ==> car_ids@[#[trigger] order[i] as int]
                            <= car_ids@[#[trigger] order[j] as int]
                    &&& forall|i: int, j: int|
                        0 <= i < j < order.len() && car_ids@[order[i] as int] == car_ids@[
                            order[j] as int
                        ] ==> #[trigger] order[i] < #[trigger] order[j]
                },
    {
        let sorted = sort_by_key_stable(&self.players, car_ids);
        self.players = sorted;
    }
}

/// The packets of `players` laid end to end: thirty-nine values each, packet
/// `k` at `39 * k`.
pub proof fn lemma_players_flat<T>(players: Seq<PlayerRecord<T>>)
    ensures
        players_flat(players).len() == 39 * players.len(),
        forall|k: int|
            0 <= k < players.len() ==> players_flat(players).subrange(39 * k, 39 * k + 39)
                == (#[trigger] players[k]).flat(),
    decreases players.len(),
{
    if players.len() > 0 {
        let init = players.drop_last();
        lemma_players_flat(init);
        let a = players_flat(init);
        let b = players.last().flat();
        assert forall|k: int| 0 <= k < players.len() implies players_flat(players).subrange(
            39 * k,
            39 * k + 39,
        ) == (#[trigger] players[k]).flat() by {
            if k < players.len() - 1 {
                assert(init[k] == players[k]);
                assert((a + b).subrange(39 * k, 39 * k + 39) =~= a.subrange(39 * k, 39 * k + 39));
            } else {
                assert((a + b).subrange(39 * k, 39 * k + 39) =~= b);
            }
        }
    }
}

/// A state with one value per boost pad encodes to the header, the pads and
/// the two balls, then thirty-nine values per player.
pub proof fn lemma_state_flat_len<T>(m: StateModel<T>, game_type: T)
    requires
        m.boost_pads.len() == BOOST_PAD_LENGTH,
    ensures
        state_flat(m, game_type).len() == player_offset(m.players.len() as int),
{
    lemma_players_flat(m.players);
}

/// Encoding a well-formed state that has at least one player and decoding the
/// result gives the state back. (With no players the encoding is shorter than
/// the decoder's window and the decoder does not accept it.)
pub proof fn lemma_decode_of_encode<T>(m: StateModel<T>, game_type: T)
    requires
        m.wf(),
        m.players.len() >= 1,
    ensures
        state_flat(m, game_type).len() == player_offset(m.players.len() as int),
        state_from_flat(state_flat(m, game_type)) == m,
{
    let s = state_flat(m, game_type);
    let pf = players_flat(m.players);
    lemma_players_flat(m.players);
    let head = seq![game_type, m.blue_score, m.orange_score] + m.boost_pads + m.ball.flat()
        + m.inverted_ball.flat();
    assert(head.len() == 55);
    assert(s == head + pf);
    let n = m.players.len() as int;
    assert(s.len() == 55 + 39 * n);
    assert(player_count(s.len() as int) == n) by (nonlinear_arith)
        requires
            s.len() == 55 + 39 * n,
            n >= 0,
    ;
    assert(s.subrange(3, 37) =~= m.boost_pads);
    assert(s.subrange(37, 46) =~= m.ball.flat());
    crate::records::lemma_ball_at_of_flat(s, 37, m.ball);
    assert(s.subrange(46, 55) =~= m.inverted_ball.flat());
    crate::records::lemma_ball_at_of_flat(s, 46, m.inverted_ball);
    let decoded = state_from_flat(s);
    assert forall|k: int| 0 <= k < n implies #[trigger] decoded.players[k] == m.players[k] by {
        assert(pf.subrange(39 * k, 39 * k + 39) == m.players[k].flat());
        assert(s.subrange(55 + 39 * k, 55 + 39 * k + 39) =~= pf.subrange(39 * k, 39 * k + 39));
        crate::records::lemma_player_at_of_flat(s, player_offset(k), m.players[k]);
    }
    assert(decoded.players =~= m.players);
}

/// Decoding a state vector and encoding the result, with the vector's own
/// slot 0 as the game type, gives back the vector up to the end of its last
/// whole player packet.
pub proof fn lemma_encode_of_decode<T>(s: Seq<T>)
    requires
        s.len() >= MIN_STATE_LENGTH,
    ensures
        state_flat(state_from_flat(s), s[0]) == s.take(
            player_offset(player_count(s.len() as int)),
        ),
{
    let m = state_from_flat(s);
    let n = player_count(s.len() as int);
    assert(0 <= n && player_offset(n) <= s.len()) by (nonlinear_arith)
        requires
            s.len() >= 64,
            n == (s.len() - 55) / 39,
    ;
    lemma_players_flat(m.players);
    let pf = players_flat(m.players);
    crate::records::lemma_ball_flat_of_at(s, 37);
    crate::records::lemma_ball_flat_of_at(s, 46);
    assert forall|j: int| 0 <= j < 39 * n implies #[trigger] pf[j] == s[55 + j] by {
        let k = j / 39;
        let r = j % 39;
        assert(0 <= k < n && j == 39 * k + r && 0 <= r < 39) by (nonlinear_arith)
            requires
                0 <= j < 39 * n,
                k == j / 39,
                r == j % 39,
        ;
        crate::records::lemma_player_flat_of_at(s, player_offset(k));
        assert(m.players[k] == player_at(s, player_offset(k)));
        assert(pf.subrange(39 * k, 39 * k + 39)[r] == pf[j]);
    }
    let t = s.take(player_offset(n));
    let e = state_flat(m, s[0]);
    assert(e.len() == t.len());
    assert forall|j: int| 0 <= j < t.len() implies #[trigger] e[j] == t[j] by {
        if j < 3 {
        } else if j < 37 {
        } else if j < 46 {
            assert(s.subrange(37, 46)[j - 37] == s[j]);
        } else if j < 55 {
            assert(s.subrange(46, 55)[j - 46] == s[j]);
        } else {
            assert(pf[j - 55] == s[j]);
        }
    }
    assert(e =~= t);
}

/// What the decoder reads from where, for any length and player count: the
/// scores from slots 1 and 2, pad `i` from slot `3 + i` and inverted pad `i`
/// from slot `36 - i`, the ball from slots 37 to 45 and the inverted ball
/// from slots 46 to 54 (position, linear velocity, angular velocity), and
/// player `k` from the 39 values at `55 + 39 * k`, for every whole packet.
pub proof fn lemma_decode_fields<T>(s: Seq<T>)
    requires
        s.len() >= 64,
    ensures
        ({
            let d = state_from_flat(s);
            &&& d.blue_score == s[1]
            &&& d.orange_score == s[2]
            &&& d.boost_pads.len() == 34
            &&& forall|i: int| 0 <= i < 34 ==> #[trigger] d.boost_pads[i] == s[3 + i]
            &&& d.inverted_boost_pads.len() == 34
            &&& forall|i: int| 0 <= i < 34 ==> #[trigger] d.inverted_boost_pads[i] == s[36 - i]
            &&& d.players.len() == (s.len() - 55) / 39
            &&& forall|k: int|
                0 <= k < d.players.len() ==> #[trigger] d.players[k] == player_at(s, 55 + 39 * k)
        }),
        ({
            let d = state_from_flat(s);
            &&& d.ball == ball_at(s, 37)
            &&& d.inverted_ball == ball_at(s, 46)
        }),
{
    let d = state_from_flat(s);
    assert forall|i: int| 0 <= i < 34 implies #[trigger] d.inverted_boost_pads[i] == s[36 - i] by {
        assert(d.inverted_boost_pads[i] == s.subrange(3, 37)[33 - i]);
    }
}

/// The decoder's balls value by value.
pub proof fn lemma_decode_ball_fields<T>(s: Seq<T>)
    requires
        s.len() >= 64,
    ensures
        ({
            let d = state_from_flat(s);
            &&& d.ball.position.x == s[37]
            &&& d.ball.position.y == s[38]
            &&& d.ball.position.z == s[39]
            &&& d.ball.linear_velocity.x == s[40]
            &&& d.ball.linear_velocity.y == s[41]
            &&& d.ball.linear_velocity.z == s[42]
            &&& d.ball.angular_velocity.x == s[43]
            &&& d.ball.angular_velocity.y == s[44]
            &&& d.ball.angular_velocity.z == s[45]
            &&& d.inverted_ball.position.x == s[46]
            &&& d.inverted_ball.position.y == s[47]
            &&& d.inverted_ball.position.z == s[48]
            &&& d.inverted_ball.linear_velocity.x == s[49]
            &&& d.inverted_ball.linear_velocity.y == s[50]
            &&& d.inverted_ball.linear_velocity.z == s[51]
            &&& d.inverted_ball.angular_velocity.x == s[52]
            &&& d.inverted_ball.angular_velocity.y == s[53]
            &&& d.inverted_ball.angular_velocity.z == s[54]
        }),
{
    crate::records::lemma_ball_at_fields(s, 37);
    crate::records::lemma_ball_at_fields(s, 46);
}

/// Where the encoder writes each value, for any number of players: the game
/// type, then the blue and the orange score, then pad `i` at `3 + i`; with `b`
/// the end of the pads, the ball at `b` and the inverted ball at `b + 9`
/// (position, linear velocity, angular velocity), and player `k`'s packet at
/// `b + 18 + 39 * k`.
pub proof fn lemma_encode_fields<T>(m: StateModel<T>, game_type: T)
    ensures
        ({
            let e = state_flat(m, game_type);
            let b: int = 3 + m.boost_pads.len() as int;
            &&& e.len() == b + 18 + 39 * m.players.len()
            &&& e[0] == game_type
            &&& e[1] == m.blue_score
            &&& e[2] == m.orange_score
            &&& forall|i: int| 0 <= i < m.boost_pads.len() ==> #[trigger] e[3 + i] == m.boost_pads[i]
            &&& forall|k: int|
                0 <= k < m.players.len() ==> player_at(e, b + 18 + 39 * k) == #[trigger] m.players[k]
        }),
        ({
            let e = state_flat(m, game_type);
            let b: int = 3 + m.boost_pads.len() as int;
            &&& e[b + 0] == m.ball.position.x
            &&& e[b + 1] == m.ball.position.y
            &&& e[b + 2] == m.ball.position.z
            &&& e[b + 3] == m.ball.linear_velocity.x
            &&& e[b + 4] == m.ball.linear_velocity.y
            &&& e[b + 5] == m.ball.linear_velocity.z
            &&& e[b + 6] == m.ball.angular_velocity.x
            &&& e[b + 7] == m.ball.angular_velocity.y
            &&& e[b + 8] == m.ball.angular_velocity.z
            &&& e[b + 9] == m.inverted_ball.position.x
            &&& e[b + 10] == m.inverted_ball.position.y
            &&& e[b + 11] == m.inverted_ball.position.z
            &&& e[b + 12] == m.inverted_ball.linear_velocity.x
            &&& e[b + 13] == m.inverted_ball.linear_velocity.y
            &&& e[b + 14] == m.inverted_ball.linear_velocity.z
            &&& e[b + 15] == m.inverted_ball.angular_velocity.x
            &&& e[b + 16] == m.inverted_ball.angular_velocity.y
            &&& e[b + 17] == m.inverted_ball.angular_velocity.z
        }),
{
    let e = state_flat(m, game_type);
    let b: int = 3 + m.boost_pads.len() as int;
    let pf = players_flat(m.players);
    lemma_players_flat(m.players);
    crate::records::lemma_ball_flat_fields(m.ball);
    crate::records::lemma_ball_flat_fields(m.inverted_ball);
    let head = seq![game_type, m.blue_score, m.orange_score] + m.boost_pads + m.ball.flat()
        + m.inverted_ball.flat();
    assert(e == head + pf);
    assert forall|i: int| 0 <= i < m.boost_pads.len() implies #[trigger] e[3 + i] == m.boost_pads[i] by {
        assert(head[3 + i] == m.boost_pads[i]);
    }
    assert forall|j: int| 0 <= j < 9 implies e[b + j] == #[trigger] m.ball.flat()[j] by {
        assert(head[b + j] == m.ball.flat()[j]);
    }
    assert forall|j: int| 0 <= j < 9 implies e[b + 9 + j] == #[trigger] m.inverted_ball.flat()[j] by {
        assert(head[b + 9 + j] == m.inverted_ball.flat()[j]);
    }
    assert forall|k: int| 0 <= k < m.players.len() implies player_at(e, b + 18 + 39 * k)
        == #[trigger] m.players[k] by {
        assert(pf.subrange(39 * k, 39 * k + 39) == m.players[k].flat());
        assert(e.subrange(b + 18 + 39 * k, b + 18 + 39 * k + 39) =~= pf.subrange(39 * k, 39 * k + 39));
        crate::records::lemma_player_at_of_flat(e, b + 18 + 39 * k, m.players[k]);
    }
}

} // verus!
