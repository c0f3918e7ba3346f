use std::collections::VecDeque;

use robotini::control::{decay, speed_for, steer, CarState, Ratios};
use robotini::drive::{frame_update, region_ratio};
use robotini::horizon::{push_horizon, raw_horizon};
use robotini::image::{count_nonzero, count_zeros, erode, grayscale, threshold, Frame, Plane};
use robotini::protocol::{payload_length, split_frame, Command, ConnectionError, LoginMessage};
use robotini::segmentation::{channel_range, gated_channel, process_frame};
use robotini::tuning::{Tuning, HORIZON_WINDOW, SCALE, TURN_LIMIT};

fn solid_frame(width: usize, height: usize, bgr: [u8; 3]) -> Frame {
    let mut data = Vec::new();
    for _ in 0..width * height {
        data.extend_from_slice(&bgr);
    }
    Frame::from_bgr(width, height, data).unwrap()
}

/// Upper half pure blue, lower half pure red.
fn blue_over_red(width: usize, height: usize) -> Frame {
    let mut data = Vec::new();
    for y in 0..height {
        for _ in 0..width {
            if y < height / 2 {
                data.extend_from_slice(&[255, 0, 0]);
            } else {
                data.extend_from_slice(&[0, 0, 255]);
            }
        }
    }
    Frame::from_bgr(width, height, data).unwrap()
}

fn plane(width: usize, height: usize, data: Vec<u8>) -> Plane {
    assert_eq!(data.len(), width * height);
    Plane { width, height, data }
}

#[test]
fn payload_length_reads_big_endian() {
    assert_eq!(payload_length(&[0x01, 0x02]), Ok(258));
    assert_eq!(payload_length(&[0x00, 0x07, 0xff]), Ok(7));
    assert_eq!(payload_length(&[0x01]), Err(ConnectionError::ShortRead));
    assert_eq!(payload_length(&[]), Err(ConnectionError::ShortRead));
}

#[test]
fn split_frame_takes_one_message() {
    let buf = [0x00, 0x03, 7, 8, 9, 10, 11];
    let (payload, used) = split_frame(&buf).unwrap();
    assert_eq!(payload, vec![7, 8, 9]);
    assert_eq!(used, 5);
    let (empty, used) = split_frame(&[0x00, 0x00]).unwrap();
    assert!(empty.is_empty());
    assert_eq!(used, 2);
}

#[test]
fn short_frame_message_is_a_short_read() {
    // The prefix announces 500 bytes, and only one follows.
    let buf = [0x01, 0xF4, 0xAB];
    assert_eq!(split_frame(&buf), Err(ConnectionError::ShortRead));
    assert_eq!(split_frame(&[0x01]), Err(ConnectionError::ShortRead));
}

#[test]
fn frame_size_must_match_data() {
    assert!(Frame::from_bgr(2, 2, vec![0; 12]).is_some());
    assert!(Frame::from_bgr(2, 2, vec![0; 11]).is_none());
    assert!(Frame::from_bgr(0, 5, vec![]).is_some());
    assert!(Frame::from_bgr(usize::MAX, 2, vec![]).is_none());
}

#[test]
fn grayscale_uses_luma_weights() {
    let f = Frame::from_bgr(
        5,
        1,
        vec![255, 0, 0, 0, 255, 0, 0, 0, 255, 255, 255, 255, 10, 20, 30],
    )
    .unwrap();
    let g = grayscale(&f);
    assert_eq!((g.width, g.height), (5, 1));
    assert_eq!(g.data, vec![29, 150, 76, 255, 22]);
}

#[test]
fn threshold_is_inclusive() {
    let p = plane(4, 1, vec![0, 29, 30, 200]);
    assert_eq!(threshold(&p, 30).data, vec![0, 0, 255, 255]);
}

#[test]
fn erosion_takes_left_and_upper_neighbours() {
    let p = plane(3, 3, vec![9, 9, 9, 9, 1, 9, 9, 9, 9]);
    assert_eq!(erode(&p).data, vec![9, 9, 9, 9, 1, 1, 9, 1, 1]);
    let edge = plane(2, 2, vec![5, 6, 7, 8]);
    assert_eq!(erode(&edge).data, vec![5, 5, 5, 5]);
}

#[test]
fn counts_split_zero_and_nonzero() {
    let v = vec![0, 3, 0, 0, 255, 1];
    assert_eq!(count_zeros(&v, 0, 6), 3);
    assert_eq!(count_nonzero(&v, 0, 6), 3);
    assert_eq!(count_zeros(&v, 1, 4), 2);
    assert_eq!(count_nonzero(&v, 4, 4), 0);
}

#[test]
fn normalisation_stretches_each_channel_and_gates() {
    // Blue channel spans 10..=60; the blacks mask drops the last pixel.
    let f = Frame::from_bgr(3, 1, vec![10, 0, 0, 35, 0, 0, 60, 0, 0]).unwrap();
    assert_eq!(channel_range(&f, 0), (10, 60));
    assert_eq!(channel_range(&f, 1), (0, 0));
    let blacks = plane(3, 1, vec![255, 255, 0]);
    assert_eq!(gated_channel(&f, &blacks, 0).data, vec![0, 128, 0]);
    // A flat channel maps to zero.
    assert_eq!(gated_channel(&f, &blacks, 1).data, vec![0, 0, 0]);
}

#[test]
fn all_black_frame_gives_empty_masks_and_central_horizon() {
    let f = solid_frame(128, 80, [0, 0, 0]);
    let t = Tuning::standard();
    let seg = process_frame(&f, t);
    assert!(grayscale(&f).data.iter().all(|v| *v == 0));
    assert!(seg.blacks.data.iter().all(|v| *v == 0));
    assert!(seg.red.red_mask.data.iter().all(|v| *v == 0));
    assert_eq!(raw_horizon(&seg.red.red_mask), 39);

    let mut state = CarState::new();
    frame_update(&f, &mut state, &t);
    assert_eq!(state.previous_horizons.front(), Some(&39));
}

#[test]
fn horizon_prefers_most_black_row_then_nearest_middle() {
    // 2 wide, 8 high: rows 0 and 2 have two zeros, rows 1 and 3 one.
    let data = vec![0, 0, 0, 9, 0, 0, 9, 0, 9, 9, 9, 9, 9, 9, 9, 9];
    assert_eq!(raw_horizon(&plane(2, 8, data)), 2);
    let data = vec![0, 0, 0, 9, 9, 9, 9, 0, 9, 9, 9, 9, 9, 9, 9, 9];
    assert_eq!(raw_horizon(&plane(2, 8, data)), 0);
}

#[test]
fn blue_over_red_steers_to_the_limit() {
    let f = blue_over_red(128, 80);
    let t = Tuning::standard();
    let seg = process_frame(&f, t);
    let top = 39;
    let red = region_ratio(&seg.red.red_mask, top);
    let green = region_ratio(&seg.green.green_mask, top);
    let blue = region_ratio(&seg.blue.blue_mask, top);
    assert_eq!(red, 926_829);
    assert!(red > 900_000);
    assert_eq!(green, 0);
    assert_eq!(blue, 0);

    let mut state = CarState::new();
    let (forward, turn) = frame_update(&f, &mut state, &t);
    assert_eq!(state.previous_horizons.front(), Some(&39));
    assert_eq!(turn, Command::Turn { value: -TURN_LIMIT });
    assert_eq!(forward, Command::Forward { value: 2000 });
    assert_eq!(state.speed, 2000);
    assert_eq!(state.wheels_turn, -270_000);
}

#[test]
fn segmentation_is_repeatable() {
    let f = blue_over_red(16, 10);
    let t = Tuning::standard();
    let a = process_frame(&f, t);
    let b = process_frame(&f, t);
    assert_eq!(a.blacks.data, b.blacks.data);
    for (x, y) in [(&a.blue, &b.blue), (&a.green, &b.green), (&a.red, &b.red)] {
        assert_eq!(x.eroded.data, y.eroded.data);
        assert_eq!(x.blue_mask.data, y.blue_mask.data);
        assert_eq!(x.green_mask.data, y.green_mask.data);
        assert_eq!(x.red_mask.data, y.red_mask.data);
    }
}

#[test]
fn ratios_stay_within_unit_range() {
    let full = plane(4, 4, vec![255; 16]);
    assert_eq!(region_ratio(&full, 0), SCALE);
    let empty = plane(4, 4, vec![0; 16]);
    assert_eq!(region_ratio(&empty, 3), 0);
    let mut half = vec![0; 16];
    for v in half.iter_mut().skip(8) {
        *v = 1;
    }
    assert_eq!(region_ratio(&plane(4, 4, half.clone()), 0), 500_000);
    assert_eq!(region_ratio(&plane(4, 4, half), 1), 666_666);
}

#[test]
fn horizon_window_settles_on_a_constant_estimate() {
    let mut q: VecDeque<usize> = VecDeque::new();
    assert_eq!(push_horizon(&mut q, 30), 30);
    assert_eq!(push_horizon(&mut q, 10), 20);
    for _ in 0..HORIZON_WINDOW {
        push_horizon(&mut q, 12);
    }
    assert_eq!(q.len(), HORIZON_WINDOW);
    assert_eq!(push_horizon(&mut q, 12), 12);
    assert!(q.iter().all(|r| *r == 12));
}

#[test]
fn horizon_window_never_exceeds_its_size() {
    let mut q: VecDeque<usize> = VecDeque::new();
    for i in 0..200 {
        push_horizon(&mut q, i % 7);
        assert!(q.len() <= HORIZON_WINDOW);
    }
    assert_eq!(q.len(), HORIZON_WINDOW);
    assert_eq!(q.front(), Some(&(199 % 7)));
}

#[test]
fn steering_follows_the_red_green_difference() {
    let t = Tuning::standard();
    let r = Ratios { blue: 0, green: 0, red: 100_000 };
    assert_eq!(steer(0, r, &t), -180_000);
    let g = Ratios { blue: 0, green: 100_000, red: 0 };
    assert_eq!(steer(50_000, g, &t), 230_000);
    let big = Ratios { blue: 0, green: 0, red: 500_000 };
    assert_eq!(steer(-100_000, big, &t), -TURN_LIMIT);
    let other = Ratios { blue: 0, green: SCALE, red: 0 };
    assert_eq!(steer(0, other, &t), TURN_LIMIT);
    // Blue dominating leaves the steering alone.
    let blue = Ratios { blue: 600_000, green: 0, red: SCALE };
    assert_eq!(steer(123_456, blue, &t), 123_456);
}

#[test]
fn speed_is_inverse_to_steering_and_clamped() {
    let t = Tuning::standard();
    assert_eq!(speed_for(180_000, &t), 5555);
    assert_eq!(speed_for(-180_000, &t), 5555);
    assert_eq!(speed_for(0, &t), 30_000);
    assert_eq!(speed_for(TURN_LIMIT, &t), 2000);
    for turn in [-TURN_LIMIT, -400_000, -1, 0, 7, 33_333, 500_000, TURN_LIMIT] {
        let s = speed_for(turn, &t);
        assert!(t.min_speed <= s && s <= t.max_speed);
    }
}

#[test]
fn steering_decays_to_rest_without_a_trigger() {
    let t = Tuning::standard();
    assert_eq!(decay(-900_000, &t), -270_000);
    let mut state = CarState::new();
    state.wheels_turn = TURN_LIMIT;
    let calm = Ratios { blue: SCALE, green: 250_000, red: 250_000 };
    let expected = [
        270_000, 81_000, 24_300, 7_290, 2_187, 656, 196, 58, 17, 5, 1, 0, 0,
    ];
    let mut previous = state.wheels_turn;
    for e in expected {
        let (_, turn) = state.control_step(calm, &t);
        assert_eq!(turn, Command::Turn { value: previous });
        assert_eq!(state.wheels_turn, e);
        assert!(e == 0 || e.abs() < previous.abs());
        previous = e;
    }
}

#[test]
fn control_step_keeps_speed_and_steering_in_range() {
    let t = Tuning::standard();
    let mut state = CarState::new();
    for (b, g, r) in [(0, 0, SCALE), (0, SCALE, 0), (700_000, 0, 0), (0, 300_000, 310_000)] {
        let (forward, turn) = state.control_step(Ratios { blue: b, green: g, red: r }, &t);
        match turn {
            Command::Turn { value } => assert!(-TURN_LIMIT <= value && value <= TURN_LIMIT),
            _ => panic!("second command steers"),
        }
        assert_eq!(forward, Command::Forward { value: state.speed });
        assert!(t.min_speed <= state.speed && state.speed <= t.max_speed);
    }
}

#[test]
fn state_fits_checks_every_estimate() {
    let mut state = CarState::new();
    assert!(state.fits(2));
    state.previous_horizons.push_front(5);
    assert!(state.fits(6));
    assert!(!state.fits(5));
}

#[test]
fn standard_tuning_values() {
    let t = Tuning::standard();
    assert_eq!(t.gray_level, 30);
    assert_eq!((t.blue_cutoff, t.green_cutoff, t.red_cutoff), (200, 200, 150));
    assert_eq!((t.min_speed, t.max_speed), (2000, 30_000));
    assert_eq!((t.gain_permille, t.decay_permille, t.speed_numerator), (1800, 300, 1000));
}

#[test]
fn login_message_holds_its_fields() {
    let m = LoginMessage { name: "Team Rust", color: "#ff9514", team_id: "rust" };
    assert_eq!((m.name, m.color, m.team_id), ("Team Rust", "#ff9514", "rust"));
}
