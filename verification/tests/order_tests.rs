use rlbot_rust_compat::codec::get_state_floats;
use rlbot_rust_compat::gym::{gym_car_flags, gym_car_ids, GymCarFlags};
use rlbot_rust_compat::order::{permute, sort_by_key_stable, sort_order_by_key};
use rlbot_rust_compat::records::StateRecord;

#[test]
fn stable_order_of_keys() {
    assert_eq!(sort_order_by_key(&vec![3, 1, 3, 2]), vec![1, 3, 0, 2]);
    assert_eq!(sort_order_by_key(&vec![]), Vec::<usize>::new());
    assert_eq!(sort_order_by_key(&vec![5, 5, 5]), vec![0, 1, 2]);
    assert_eq!(sort_order_by_key(&vec![2, 1, 0, -1]), vec![3, 2, 1, 0]);
    assert_eq!(sort_order_by_key(&vec![i32::MAX, i32::MIN, 0]), vec![1, 2, 0]);
}

#[test]
fn permute_picks_positions() {
    assert_eq!(permute(&vec!['a', 'b', 'c'], &vec![2, 0, 0]), vec!['c', 'a', 'a']);
    assert_eq!(permute(&vec!['a'], &vec![]), Vec::<char>::new());
}

#[test]
fn sort_by_key_is_stable() {
    let items = vec!["x3", "y1", "z3", "w2"];
    assert_eq!(sort_by_key_stable(&items, &vec![3, 1, 3, 2]), vec!["y1", "w2", "x3", "z3"]);
}

#[test]
fn players_sorted_by_car_id() {
    let vals: Vec<f32> = (0..172).map(|i| i as f32).collect();
    let mut s = StateRecord::new_from_vec(vals);
    let before = s.clone();
    let ids: Vec<i32> = vec![4, 2, 3];
    s.sort_players_by_car_id(&ids);
    assert_eq!(s.players, vec![before.players[1], before.players[2], before.players[0]]);
    assert_eq!(s.ball, before.ball);
    assert_eq!(s.boost_pads, before.boost_pads);
    assert_eq!(get_state_floats(&s, 0.0).len(), 172);
}

#[test]
fn gym_flags_from_bytes() {
    assert_eq!(
        gym_car_flags(1, 0, 1, 0),
        GymCarFlags { is_on_ground: true, is_demoed: false, has_flipped: false, has_jumped: true }
    );
    assert_eq!(
        gym_car_flags(0, 255, 0, 7),
        GymCarFlags { is_on_ground: false, is_demoed: true, has_flipped: true, has_jumped: false }
    );
}

#[test]
fn gym_ids_count_from_one() {
    assert_eq!(gym_car_ids(0), Vec::<u32>::new());
    assert_eq!(gym_car_ids(4), vec![1, 2, 3, 4]);
}
