use soccer_tool::data::robot_state::{
    game_flags, peer_flags, GameState, MotionData, PeerRobot, RobotState, SensorData, VisionData,
};

#[test]
fn default_packet_names_no_robot() {
    let s = RobotState::default();
    assert_eq!(s.esp_now_bot_id, -1);
    assert!(s.console_print.is_empty());
    assert_eq!(s.game.flags, 0);
    assert_eq!(s.vision.heading, 0.0f32.to_bits());
    assert_eq!(s.vision.object_label, [0; 6]);
    assert!(!s.vision.ball_exists);
    assert_eq!(s.sensors.line_rot, 0);
    assert_eq!(s.motion.velocity_x, 0);
    assert_eq!(s.peer.flags, 0);
}

#[test]
fn sub_defaults_are_blank() {
    let v = VisionData::default();
    assert_eq!(v.num_detections, 0);
    assert!(!v.cm5_running);
    let s = SensorData::default();
    assert!(!s.ena && !s.has_ball && !s.line_seen);
    let m = MotionData::default();
    assert_eq!(m.middle_point_vec_magnitude, 0);
    let p = PeerRobot::default();
    assert_eq!(p.heading, 0);
    assert_eq!(GameState::default().flags, 0);
}

#[test]
fn game_state_reads_its_bits() {
    let g = GameState { flags: 0b0010_0101 };
    assert!(g.is_running());
    assert!(!g.is_goalie());
    assert!(g.target_is_yellow());
    assert!(!g.switch_wanted());
    assert_eq!(g.fsm_state(), 2);
    let all = GameState { flags: 0xFF };
    assert!(all.is_running() && all.is_goalie() && all.target_is_yellow() && all.switch_wanted());
    assert_eq!(all.fsm_state(), 3);
}

#[test]
fn peer_robot_reads_its_bits() {
    let p = PeerRobot { flags: 0b0010_1001, ..PeerRobot::default() };
    assert!(p.is_running());
    assert!(!p.is_goalie());
    assert!(!p.sees_line());
    assert!(p.ball_exists());
    assert!(!p.switch_wanted());
    assert!(p.peer_alive());
}

#[test]
fn game_flags_round_trip() {
    for bits in 0u8..16 {
        for fsm in 0u8..4 {
            let f = game_flags(bits & 1 != 0, bits & 2 != 0, bits & 4 != 0, bits & 8 != 0, fsm);
            let g = GameState { flags: f };
            assert_eq!(g.is_running(), bits & 1 != 0);
            assert_eq!(g.is_goalie(), bits & 2 != 0);
            assert_eq!(g.target_is_yellow(), bits & 4 != 0);
            assert_eq!(g.switch_wanted(), bits & 8 != 0);
            assert_eq!(g.fsm_state(), fsm);
        }
    }
    assert_eq!(game_flags(true, false, true, false, 2), 0b0010_0101);
    let g = GameState { flags: 0xC7 };
    assert_eq!(
        game_flags(g.is_running(), g.is_goalie(), g.target_is_yellow(), g.switch_wanted(), g.fsm_state()),
        0xC7 % 64
    );
}

#[test]
fn peer_flags_round_trip() {
    for bits in 0u8..64 {
        let f = peer_flags(
            bits & 1 != 0,
            bits & 2 != 0,
            bits & 4 != 0,
            bits & 8 != 0,
            bits & 16 != 0,
            bits & 32 != 0,
        );
        assert_eq!(f, bits);
        let p = PeerRobot { flags: f, ..PeerRobot::default() };
        assert_eq!(p.peer_alive(), bits & 32 != 0);
        assert_eq!(p.sees_line(), bits & 4 != 0);
    }
    assert_eq!(peer_flags(true, false, false, true, false, true), 0b0010_1001);
}
