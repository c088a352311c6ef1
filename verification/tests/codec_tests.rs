use rlbot_rust_compat::codec::{
    decode_ball_data, decode_car_data, decode_player_precompute, get_ball_object_floats,
    get_car_physics_object_floats, get_player_floats, get_state_floats,
};
use rlbot_rust_compat::layout::{num_player_packets, MAX_SIZE, PLAYER_INFO_LENGTH};
use rlbot_rust_compat::records::{
    BallRecord, CarRecord, PlayerRecord, Quat, StateRecord, Vec3,
};

fn v3(a: f32) -> Vec3<f32> {
    Vec3 { x: a, y: a + 1.0, z: a + 2.0 }
}

fn car(a: f32) -> CarRecord<f32> {
    CarRecord {
        position: v3(a),
        quaternion: Quat { w: a + 3.0, x: a + 4.0, y: a + 5.0, z: a + 6.0 },
        linear_velocity: v3(a + 7.0),
        angular_velocity: v3(a + 10.0),
    }
}

fn player(a: f32) -> PlayerRecord<f32> {
    PlayerRecord {
        car_id: a,
        team_num: a + 1.0,
        car_data: car(a + 2.0),
        inverted_car_data: car(a + 15.0),
        match_goals: a + 28.0,
        match_saves: a + 29.0,
        match_shots: a + 30.0,
        match_demolishes: a + 31.0,
        boost_pickups: a + 32.0,
        is_demoed: a + 33.0,
        on_ground: a + 34.0,
        ball_touched: a + 35.0,
        has_jump: a + 36.0,
        has_flip: a + 37.0,
        boost_amount: a + 38.0,
    }
}

fn counting(n: usize) -> Vec<f32> {
    (0..n).map(|i| i as f32).collect()
}

fn sample_state(players: usize) -> StateRecord<f32> {
    let pads: Vec<f32> = (3..37).map(|i| i as f32).collect();
    let mut inverted = pads.clone();
    inverted.reverse();
    StateRecord {
        blue_score: 1.0,
        orange_score: 2.0,
        boost_pads: pads,
        inverted_boost_pads: inverted,
        ball: BallRecord { position: v3(37.0), linear_velocity: v3(40.0), angular_velocity: v3(43.0) },
        inverted_ball: BallRecord { position: v3(46.0), linear_velocity: v3(49.0), angular_velocity: v3(52.0) },
        players: (0..players).map(|k| player(55.0 + 39.0 * k as f32)).collect(),
    }
}

#[test]
fn layout_constants() {
    assert_eq!(PLAYER_INFO_LENGTH, 39);
    assert_eq!(MAX_SIZE, 289);
}

#[test]
fn player_packet_counts() {
    assert_eq!(num_player_packets(55), 0);
    assert_eq!(num_player_packets(64), 0);
    assert_eq!(num_player_packets(93), 0);
    assert_eq!(num_player_packets(94), 1);
    assert_eq!(num_player_packets(132), 1);
    assert_eq!(num_player_packets(133), 2);
    assert_eq!(num_player_packets(289), 6);
}

#[test]
fn ball_floats_in_order() {
    let ball = BallRecord { position: v3(0.0), linear_velocity: v3(3.0), angular_velocity: v3(6.0) };
    assert_eq!(get_ball_object_floats(&ball), counting(9));
}

#[test]
fn car_floats_in_order() {
    assert_eq!(get_car_physics_object_floats(&car(0.0)), counting(13));
}

#[test]
fn player_floats_in_order() {
    assert_eq!(get_player_floats(&player(0.0)), counting(39));
}

#[test]
fn ball_decoded_from_first_nine() {
    let vals = counting(18);
    let ball = decode_ball_data(&vals);
    assert_eq!(ball.position, v3(0.0));
    assert_eq!(ball.linear_velocity, v3(3.0));
    assert_eq!(ball.angular_velocity, v3(6.0));
}

#[test]
fn car_decoded_with_quaternion_w_first() {
    let vals = counting(13);
    assert_eq!(decode_car_data(&vals), car(0.0));
}

#[test]
fn player_decoded_field_by_field() {
    let vals = counting(39);
    let p = decode_player_precompute(&vals);
    assert_eq!(p, player(0.0));
    assert_eq!(p.car_id, 0.0);
    assert_eq!(p.team_num, 1.0);
    assert_eq!(p.inverted_car_data.quaternion.w, 18.0);
    assert_eq!(p.match_goals, 28.0);
    assert_eq!(p.boost_amount, 38.0);
}

#[test]
fn player_roundtrip() {
    let p = player(7.5);
    let floats = get_player_floats(&p);
    assert_eq!(floats.len(), 39);
    assert_eq!(decode_player_precompute(&floats), p);
}

#[test]
fn state_encoding_layout() {
    let s = sample_state(2);
    let floats = get_state_floats(&s, 0.0);
    assert_eq!(floats.len(), 55 + 2 * 39);
    assert_eq!(floats, counting(133));
}

#[test]
fn state_decoding_layout() {
    let vals = counting(133);
    let s = StateRecord::new_from_vec(vals);
    assert_eq!(s, sample_state(2));
    assert_eq!(s.ball.position.x, 37.0);
    assert_eq!(s.inverted_ball.position.x, 46.0);
    assert_eq!(s.players[1].car_id, 94.0);
}

#[test]
fn inverted_pads_are_reversed() {
    let s = StateRecord::new_from_vec(counting(64));
    assert_eq!(s.boost_pads.len(), 34);
    assert_eq!(s.boost_pads[0], 3.0);
    assert_eq!(s.inverted_boost_pads[0], 36.0);
    assert_eq!(s.inverted_boost_pads[33], 3.0);
    assert!(s.players.is_empty());
}

#[test]
fn trailing_partial_packet_ignored() {
    let s = StateRecord::new_from_vec(counting(132));
    assert_eq!(s.players.len(), 1);
    assert_eq!(s.players[0], player(55.0));
}

#[test]
fn decode_of_encode_roundtrip() {
    for n in 1..=6 {
        let s = sample_state(n);
        let decoded = StateRecord::new_from_vec(get_state_floats(&s, 0.0));
        assert_eq!(decoded, s);
    }
}

#[test]
fn encode_of_decode_keeps_whole_packets() {
    let mut vals = counting(150);
    vals[0] = 9.0;
    let s = StateRecord::new_from_vec(vals.clone());
    let floats = get_state_floats(&s, vals[0]);
    assert_eq!(floats, vals[..133].to_vec());
}

#[test]
fn decode_overwrites_previous_state() {
    let mut s = sample_state(3);
    s.decode(counting(94));
    assert_eq!(s.players.len(), 1);
    assert_eq!(s.blue_score, 1.0);
    assert_eq!(s, sample_state(1));
}
