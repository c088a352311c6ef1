//! The records that the flat state vector is made of, each with its flat
//! form (`flat`) and the record read back from a sequence at an offset
//! (`*_at`).
use vstd::prelude::*;

verus! {

/// A position or a velocity: three values in x, y, z order.
#[derive(Clone, Copy, Debug, PartialEq)]
pub struct Vec3<T> {
    pub x: T,
    pub y: T,
    pub z: T,
}

/// A rotation quaternion in w, x, y, z order.
#[derive(Clone, Copy, Debug, PartialEq)]
pub struct Quat<T> {
    pub w: T,
    pub x: T,
    pub y: T,
    pub z: T,
}

/// What the state vector holds of the ball: no rotation.
#[derive(Clone, Copy, Debug, PartialEq)]
pub struct BallRecord<T> {
    pub position: Vec3<T>,
    pub linear_velocity: Vec3<T>,
    pub angular_velocity: Vec3<T>,
}

/// What the state vector holds of a car's physics object.
#[derive(Clone, Copy, Debug, PartialEq)]
pub struct CarRecord<T> {
    pub position: Vec3<T>,
    pub quaternion: Quat<T>,
    pub linear_velocity: Vec3<T>,
    pub angular_velocity: Vec3<T>,
}

/// One player packet, field by field in packet order.
#[derive(Clone, Copy, Debug, PartialEq)]
pub struct PlayerRecord<T> {
    pub car_id: T,
    pub team_num: T,
    pub car_data: CarRecord<T>,
    pub inverted_car_data: CarRecord<T>,
    pub match_goals: T,
    pub match_saves: T,
    pub match_shots: T,
    pub match_demolishes: T,
    pub boost_pickups: T,
    pub is_demoed: T,
    pub on_ground: T,
    pub ball_touched: T,
    pub has_jump: T,
    pub has_flip: T,
    pub boost_amount: T,
}

/// A decoded state: the two scores, the boost pads and the same pads seen
/// from the other side, the ball and the inverted ball, and the players in
/// the order of their packets.
#[derive(Clone, Debug, PartialEq)]
pub struct StateRecord<T> {
    pub blue_score: T,
    pub orange_score: T,
    pub boost_pads: Vec<T>,
    pub inverted_boost_pads: Vec<T>,
    pub ball: BallRecord<T>,
    pub inverted_ball: BallRecord<T>,
    pub players: Vec<PlayerRecord<T>>,
}

/// The mathematical model of a `StateRecord`: its vectors as sequences.
pub struct StateModel<T> {
    pub blue_score: T,
    pub orange_score: T,
    pub boost_pads: Seq<T>,
    pub inverted_boost_pads: Seq<T>,
    pub ball: BallRecord<T>,
    pub inverted_ball: BallRecord<T>,
    pub players: Seq<PlayerRecord<T>>,
}

impl<T> View for StateRecord<T> {
    type V = StateModel<T>;

    open spec fn view(&self) -> StateModel<T> {
        StateModel {
            blue_score: self.blue_score,
            orange_score: self.orange_score,
            boost_pads: self.boost_pads@,
            inverted_boost_pads: self.inverted_boost_pads@,
            ball: self.ball,
            inverted_ball: self.inverted_ball,
            players: self.players@,
        }
    }
}

impl<T> StateModel<T> {
    /// A state as the decoder makes it: one value per boost pad, and the
    /// inverted pads are the pads in reverse order.
    pub open spec fn wf(self) -> bool {
        &&& self.boost_pads.len() == 34
        &&& self.inverted_boost_pads == self.boost_pads.reverse()
    }
}

impl<T> Vec3<T> {
    pub open spec fn flat(self) -> Seq<T> {
        seq![self.x, self.y, self.z]
    }
}

impl<T> Quat<T> {
    pub open spec fn flat(self) -> Seq<T> {
        seq![self.w, self.x, self.y, self.z]
    }
}

impl<T> BallRecord<T> {
    /// Position, linear velocity, angular velocity: nine values.
    pub open spec fn flat(self) -> Seq<T> {
        self.position.flat() + self.linear_velocity.flat() + self.angular_velocity.flat()
    }
}

impl<T> CarRecord<T> {
    /// Position, quaternion, linear velocity, angular velocity: thirteen values.
    pub open spec fn flat(self) -> Seq<T> {
        self.position.flat() + self.quaternion.flat() + self.linear_velocity.flat()
            + self.angular_velocity.flat()
    }
}

impl<T> PlayerRecord<T> {
    /// The eleven values that follow the two physics objects.
    pub open spec fn tertiary(self) -> Seq<T> {
        seq![
            self.match_goals,
            self.match_saves,
            self.match_shots,
            self.match_demolishes,
            self.boost_pickups,
            self.is_demoed,
            self.on_ground,
            self.ball_touched,
            self.has_jump,
            self.has_flip,
            self.boost_amount,
        ]
    }

    /// The whole packet: id, team, car data, inverted car data, tertiary info.
    pub open spec fn flat(self) -> Seq<T> {
        seq![self.car_id, self.team_num] + self.car_data.flat() + self.inverted_car_data.flat()
            + self.tertiary()
    }
}

pub open spec fn vec3_at<T>(s: Seq<T>, i: int) -> Vec3<T> {
    Vec3 { x: s[i], y: s[i + 1], z: s[i + 2] }
}

pub open spec fn quat_at<T>(s: Seq<T>, i: int) -> Quat<T> {
    Quat { w: s[i], x: s[i + 1], y: s[i + 2], z: s[i + 3] }
}

/// The ball read from the nine values at `i`.
pub open spec fn ball_at<T>(s: Seq<T>, i: int) -> BallRecord<T> {
    BallRecord {
        position: vec3_at(s, i),
        linear_velocity: vec3_at(s, i + 3),
        angular_velocity: vec3_at(s, i + 6),
    }
}

/// A car physics object read from the thirteen values at `i`.
pub open spec fn car_at<T>(s: Seq<T>, i: int) -> CarRecord<T> {
    CarRecord {
        position: vec3_at(s, i),
        quaternion: quat_at(s, i + 3),
        linear_velocity: vec3_at(s, i + 7),
        angular_velocity: vec3_at(s, i + 10),
    }
}

/// A player packet read from the thirty-nine values at `i`.
pub open spec fn player_at<T>(s: Seq<T>, i: int) -> PlayerRecord<T> {
    PlayerRecord {
        car_id: s[i],
        team_num: s[i + 1],
        car_data: car_at(s, i + 2),
        inverted_car_data: car_at(s, i + 15),
        match_goals: s[i + 28],
        match_saves: s[i + 29],
        match_shots: s[i + 30],
        match_demolishes: s[i + 31],
        boost_pickups: s[i + 32],
        is_demoed: s[i + 33],
        on_ground: s[i + 34],
        ball_touched: s[i + 35],
        has_jump: s[i + 36],
        has_flip: s[i + 37],
        boost_amount: s[i + 38],
    }
}

/// A ball written out and read back at the same place is the same ball.
pub proof fn lemma_ball_roundtrip<T>(b: BallRecord<T>, prefix: Seq<T>, suffix: Seq<T>)
    ensures
        (prefix + b.flat() + suffix).len() == prefix.len() + 9 + suffix.len(),
        ball_at(prefix + b.flat() + suffix, prefix.len() as int) == b,
{
}

/// A player written out and read back at the same place is the same player.
pub proof fn lemma_player_roundtrip<T>(p: PlayerRecord<T>, prefix: Seq<T>, suffix: Seq<T>)
    ensures
        (prefix + p.flat() + suffix).len() == prefix.len() + 39 + suffix.len(),
        player_at(prefix + p.flat() + suffix, prefix.len() as int) == p,
{
}

/// Thirty-nine values read as a player and written out again are the same values.
pub proof fn lemma_player_flat_of_at<T>(s: Seq<T>, i: int)
    requires
        0 <= i,
        i + 39 <= s.len(),
    ensures
        player_at(s, i).flat() == s.subrange(i, i + 39),
{
    assert(player_at(s, i).flat() =~= s.subrange(i, i + 39));
}

/// Thirty-nine values that are a player's packet read back as that player.
pub proof fn lemma_player_at_of_flat<T>(s: Seq<T>, i: int, p: PlayerRecord<T>)
    requires
        0 <= i,
        i + 39 <= s.len(),
        s.subrange(i, i + 39) == p.flat(),
    ensures
        player_at(s, i) == p,
{
    let w = s.subrange(i, i + 39);
    assert forall|j: int| 0 <= j < 39 implies s[i + j] == #[trigger] p.flat()[j] by {
        assert(w[j] == s[i + j]);
    }
    lemma_player_roundtrip(p, Seq::empty(), Seq::empty());
    assert(Seq::<T>::empty() + p.flat() + Seq::<T>::empty() =~= p.flat());
}

/// Nine values that are a ball's flat form read back as that ball.
pub proof fn lemma_ball_at_of_flat<T>(s: Seq<T>, i: int, b: BallRecord<T>)
    requires
        0 <= i,
        i + 9 <= s.len(),
        s.subrange(i, i + 9) == b.flat(),
    ensures
        ball_at(s, i) == b,
{
    let w = s.subrange(i, i + 9);
    assert forall|j: int| 0 <= j < 9 implies s[i + j] == #[trigger] b.flat()[j] by {
        assert(w[j] == s[i + j]);
    }
    lemma_ball_roundtrip(b, Seq::empty(), Seq::empty());
    assert(Seq::<T>::empty() + b.flat() + Seq::<T>::empty() =~= b.flat());
}

/// Nine values read as a ball and written out again are the same values.
pub proof fn lemma_ball_flat_of_at<T>(s: Seq<T>, i: int)
    requires
        0 <= i,
        i + 9 <= s.len(),
    ensures
        ball_at(s, i).flat() == s.subrange(i, i + 9),
{
    assert(ball_at(s, i).flat() =~= s.subrange(i, i + 9));
}

/// Where the ball reader takes each field from: position at `i`, linear
/// velocity at `i + 3`, angular velocity at `i + 6`, each in x, y, z order.
pub proof fn lemma_ball_at_fields<T>(s: Seq<T>, i: int)
    ensures
        ball_at(s, i).position.x == s[i],
        ball_at(s, i).position.y == s[i + 1],
        ball_at(s, i).position.z == s[i + 2],
        ball_at(s, i).linear_velocity.x == s[i + 3],
        ball_at(s, i).linear_velocity.y == s[i + 4],
        ball_at(s, i).linear_velocity.z == s[i + 5],
        ball_at(s, i).angular_velocity.x == s[i + 6],
        ball_at(s, i).angular_velocity.y == s[i + 7],
        ball_at(s, i).angular_velocity.z == s[i + 8],
{
}

/// Where the car reader takes each field from: position at `i`, quaternion
/// (w, x, y, z) at `i + 3`, linear velocity at `i + 7`, angular velocity at
/// `i + 10`.
pub proof fn lemma_car_at_fields<T>(s: Seq<T>, i: int)
    ensures
        car_at(s, i).position.x == s[i],
        car_at(s, i).position.y == s[i + 1],
        car_at(s, i).position.z == s[i + 2],
        car_at(s, i).quaternion.w == s[i + 3],
        car_at(s, i).quaternion.x == s[i + 4],
        car_at(s, i).quaternion.y == s[i + 5],
        car_at(s, i).quaternion.z == s[i + 6],
        car_at(s, i).linear_velocity.x == s[i + 7],
        car_at(s, i).linear_velocity.y == s[i + 8],
        car_at(s, i).linear_velocity.z == s[i + 9],
        car_at(s, i).angular_velocity.x == s[i + 10],
        car_at(s, i).angular_velocity.y == s[i + 11],
        car_at(s, i).angular_velocity.z == s[i + 12],
{
}

/// Where the player reader takes each field from: id at `i`, team at `i + 1`,
/// car data at `i + 2`, inverted car data at `i + 15`, then the eleven
/// tertiary values from `i + 28` on.
pub proof fn lemma_player_at_fields<T>(s: Seq<T>, i: int)
    ensures
        player_at(s, i).car_id == s[i],
        player_at(s, i).team_num == s[i + 1],
        player_at(s, i).car_data.position.x == s[i + 2],
        player_at(s, i).car_data.position.y == s[i + 3],
        player_at(s, i).car_data.position.z == s[i + 4],
        player_at(s, i).car_data.quaternion.w == s[i + 5],
        player_at(s, i).car_data.quaternion.x == s[i + 6],
        player_at(s, i).car_data.quaternion.y == s[i + 7],
        player_at(s, i).car_data.quaternion.z == s[i + 8],
        player_at(s, i).car_data.linear_velocity.x == s[i + 9],
        player_at(s, i).car_data.linear_velocity.y == s[i + 10],
        player_at(s, i).car_data.linear_velocity.z == s[i + 11],
        player_at(s, i).car_data.angular_velocity.x == s[i + 12],
        player_at(s, i).car_data.angular_velocity.y == s[i + 13],
        player_at(s, i).car_data.angular_velocity.z == s[i + 14],
        player_at(s, i).inverted_car_data.position.x == s[i + 15],
        player_at(s, i).inverted_car_data.position.y == s[i + 16],
        player_at(s, i).inverted_car_data.position.z == s[i + 17],
        player_at(s, i).inverted_car_data.quaternion.w == s[i + 18],
        player_at(s, i).inverted_car_data.quaternion.x == s[i + 19],
        player_at(s, i).inverted_car_data.quaternion.y == s[i + 20],
        player_at(s, i).inverted_car_data.quaternion.z == s[i + 21],
        player_at(s, i).inverted_car_data.linear_velocity.x == s[i + 22],
        player_at(s, i).inverted_car_data.linear_velocity.y == s[i + 23],
        player_at(s, i).inverted_car_data.linear_velocity.z == s[i + 24],
        player_at(s, i).inverted_car_data.angular_velocity.x == s[i + 25],
        player_at(s, i).inverted_car_data.angular_velocity.y == s[i + 26],
        player_at(s, i).inverted_car_data.angular_velocity.z == s[i + 27],
        player_at(s, i).match_goals == s[i + 28],
        player_at(s, i).match_saves == s[i + 29],
        player_at(s, i).match_shots == s[i + 30],
        player_at(s, i).match_demolishes == s[i + 31],
        player_at(s, i).boost_pickups == s[i + 32],
        player_at(s, i).is_demoed == s[i + 33],
        player_at(s, i).on_ground == s[i + 34],
        player_at(s, i).ball_touched == s[i + 35],
        player_at(s, i).has_jump == s[i + 36],
        player_at(s, i).has_flip == s[i + 37],
        player_at(s, i).boost_amount == s[i + 38],
{
}

/// The ball's flat form, value by value: position, linear velocity, angular
/// velocity, each in x, y, z order.
pub proof fn lemma_ball_flat_fields<T>(b: BallRecord<T>)
    ensures
        b.flat().len() == 9,
        b.flat()[0] == b.position.x,
        b.flat()[1] == b.position.y,
        b.flat()[2] == b.position.z,
        b.flat()[3] == b.linear_velocity.x,
        b.flat()[4] == b.linear_velocity.y,
        b.flat()[5] == b.linear_velocity.z,
        b.flat()[6] == b.angular_velocity.x,
        b.flat()[7] == b.angular_velocity.y,
        b.flat()[8] == b.angular_velocity.z,
{
}

/// The car's flat form, value by value: position, quaternion (w, x, y, z),
/// linear velocity, angular velocity.
pub proof fn lemma_car_flat_fields<T>(c: CarRecord<T>)
    ensures
        c.flat().len() == 13,
        c.flat()[0] == c.position.x,
        c.flat()[1] == c.position.y,
        c.flat()[2] == c.position.z,
        c.flat()[3] == c.quaternion.w,
        c.flat()[4] == c.quaternion.x,
        c.flat()[5] == c.quaternion.y,
        c.flat()[6] == c.quaternion.z,
        c.flat()[7] == c.linear_velocity.x,
        c.flat()[8] == c.linear_velocity.y,
        c.flat()[9] == c.linear_velocity.z,
        c.flat()[10] == c.angular_velocity.x,
        c.flat()[11] == c.angular_velocity.y,
        c.flat()[12] == c.angular_velocity.z,
{
}

/// The player's flat form, value by value: id, team, car data, inverted car
/// data, then the eleven tertiary values.
pub proof fn lemma_player_flat_fields<T>(p: PlayerRecord<T>)
    ensures
        p.flat().len() == 39,
        p.flat()[0] == p.car_id,
        p.flat()[1] == p.team_num,
        p.flat()[2] == p.car_data.position.x,
        p.flat()[3] == p.car_data.position.y,
        p.flat()[4] == p.car_data.position.z,
        p.flat()[5] == p.car_data.quaternion.w,
        p.flat()[6] == p.car_data.quaternion.x,
        p.flat()[7] == p.car_data.quaternion.y,
        p.flat()[8] == p.car_data.quaternion.z,
        p.flat()[9] == p.car_data.linear_velocity.x,
        p.flat()[10] == p.car_data.linear_velocity.y,
        p.flat()[11] == p.car_data.linear_velocity.z,
        p.flat()[12] == p.car_data.angular_velocity.x,
        p.flat()[13] == p.car_data.angular_velocity.y,
        p.flat()[14] == p.car_data.angular_velocity.z,
        p.flat()[15] == p.inverted_car_data.position.x,
        p.flat()[16] == p.inverted_car_data.position.y,
        p.flat()[17] == p.inverted_car_data.position.z,
        p.flat()[18] == p.inverted_car_data.quaternion.w,
        p.flat()[19] == p.inverted_car_data.quaternion.x,
        p.flat()[20] == p.inverted_car_data.quaternion.y,
        p.flat()[21] == p.inverted_car_data.quaternion.z,
        p.flat()[22] == p.inverted_car_data.linear_velocity.x,
        p.flat()[23] == p.inverted_car_data.linear_velocity.y,
        p.flat()[24] == p.inverted_car_data.linear_velocity.z,
        p.flat()[25] == p.inverted_car_data.angular_velocity.x,
        p.flat()[26] == p.inverted_car_data.angular_velocity.y,
        p.flat()[27] == p.inverted_car_data.angular_velocity.z,
        p.flat()[28] == p.match_goals,
        p.flat()[29] == p.match_saves,
        p.flat()[30] == p.match_shots,
        p.flat()[31] == p.match_demolishes,
        p.flat()[32] == p.boost_pickups,
        p.flat()[33] == p.is_demoed,
        p.flat()[34] == p.on_ground,
        p.flat()[35] == p.ball_touched,
        p.flat()[36] == p.has_jump,
        p.flat()[37] == p.has_flip,
        p.flat()[38] == p.boost_amount,
{
}

/// The model of a decoded state holds the record's own fields.
pub proof fn lemma_state_view_fields<T>(r: StateRecord<T>)
    ensures
        r@.blue_score == r.blue_score,
        r@.orange_score == r.orange_score,
        r@.boost_pads == r.boost_pads@,
        r@.inverted_boost_pads == r.inverted_boost_pads@,
        r@.ball == r.ball,
        r@.inverted_ball == r.inverted_ball,
        r@.players == r.players@,
{
}

} // verus!
