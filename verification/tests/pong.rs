use reflection::data::Data;
use reflection::pong::{pong_layout_fits, pong_size_fits, render_complex_impl, size_complex, PongState, Rect};

fn i16_pair(a: i16, b: i16) -> Data {
    Data::Tuple(vec![Data::I16(a), Data::I16(b)])
}

fn u16_pair(a: u16, b: u16) -> Data {
    Data::Tuple(vec![Data::U16(a), Data::U16(b)])
}

fn pong_data(s: &PongState) -> Data {
    Data::Struct {
        name: "PongState".to_string(),
        fields: vec![
            ("p1_pos".to_string(), i16_pair(s.p1_pos.0, s.p1_pos.1)),
            ("p1_size".to_string(), u16_pair(s.p1_size.0, s.p1_size.1)),
            ("p2_pos".to_string(), i16_pair(s.p2_pos.0, s.p2_pos.1)),
            ("p2_size".to_string(), u16_pair(s.p2_size.0, s.p2_size.1)),
            ("ball_pos".to_string(), i16_pair(s.ball_pos.0, s.ball_pos.1)),
            ("ball_vel".to_string(), i16_pair(s.ball_vel.0, s.ball_vel.1)),
            ("playfield_size".to_string(), u16_pair(s.playfield_size.0, s.playfield_size.1)),
        ],
    }
}

#[test]
fn default_state() {
    let s = PongState::default();
    assert_eq!(s.p1_pos, (-8, -4));
    assert_eq!(s.p1_size, (1, 2));
    assert_eq!(s.p2_pos, (8, 4));
    assert_eq!(s.p2_size, (1, 2));
    assert_eq!(s.ball_pos, (0, 0));
    assert_eq!(s.ball_vel, (1, 1));
    assert_eq!(s.playfield_size, (12, 6));
}

#[test]
fn tick_moves_ball() {
    let mut s = PongState::default();
    s.tick();
    assert_eq!(s.ball_pos, (1, 1));
    assert_eq!(s.ball_vel, (1, 1));
    assert_eq!(s.p1_pos, (-8, -4));
    assert_eq!(s.p2_pos, (8, 4));
}

#[test]
fn tick_bounces_off_top_edge() {
    let mut s = PongState::default();
    s.ball_pos = (0, 6);
    s.tick();
    assert_eq!(s.ball_pos, (1, 6));
    assert_eq!(s.ball_vel, (1, -1));
}

#[test]
fn tick_resets_ball_leaving_sideways() {
    let mut s = PongState::default();
    s.ball_pos = (12, 0);
    s.ball_vel = (1, 0);
    s.tick();
    assert_eq!(s.ball_pos, (0, 0));
    assert_eq!(s.ball_vel, (-1, 0));
}

#[test]
fn tick_bounces_off_paddle() {
    let mut s = PongState::default();
    s.ball_pos = (-9, -4);
    s.ball_vel = (1, 0);
    s.tick();
    assert_eq!(s.ball_pos, (-8, -4));
    assert_eq!(s.ball_vel, (-1, 0));
}

#[test]
fn ball_stays_in_playfield_over_many_ticks() {
    let mut s = PongState::default();
    for _ in 0..200 {
        s.tick();
        assert!(s.ball_pos.0.abs() <= 12 && s.ball_pos.1.abs() <= 6);
    }
}

#[test]
fn widget_size_is_twice_the_playfield() {
    let s = PongState::default();
    assert_eq!(size_complex(&pong_data(&s)), (24, 12));
}

#[test]
fn widget_rects() {
    let s = PongState::default();
    let rects = render_complex_impl(&pong_data(&s), 0, 0);
    let expected = vec![
        Rect { x: 0, y: 0, width: 24, height: 1 },
        Rect { x: 0, y: 12, width: 24, height: 1 },
        Rect { x: 0, y: 0, width: 1, height: 12 },
        Rect { x: 24, y: 0, width: 1, height: 12 },
        Rect { x: 3, y: 0, width: 2, height: 4 },
        Rect { x: 19, y: 8, width: 2, height: 4 },
        Rect { x: 12, y: 6, width: 1, height: 1 },
    ];
    assert_eq!(rects, expected);
}

#[test]
fn widget_rects_offset_area() {
    let s = PongState::default();
    let rects = render_complex_impl(&pong_data(&s), 10, 5);
    assert_eq!(rects[0], Rect { x: 10, y: 5, width: 24, height: 1 });
    assert_eq!(rects[6], Rect { x: 22, y: 11, width: 1, height: 1 });
}

#[test]
fn layout_checks() {
    let s = PongState::default();
    let d = pong_data(&s);
    assert!(pong_size_fits(&d));
    assert!(pong_layout_fits(&d, 0, 0));
    assert!(pong_layout_fits(&d, 100, 40));
    assert!(!pong_layout_fits(&d, 65530, 0));
    assert!(!pong_size_fits(&Data::Unit));
    assert!(!pong_layout_fits(&Data::Unit, 0, 0));
    let mut big = PongState::default();
    big.playfield_size = (40000, 6);
    assert!(!pong_size_fits(&pong_data(&big)));
    let wrong_name = Data::Struct { name: "Other".to_string(), fields: vec![] };
    assert!(!pong_size_fits(&wrong_name));
}
