//! One telemetry packet of a robot.
//!
//! Readings that the robot sends as floating-point numbers are held as the
//! IEEE-754 bit patterns of those numbers (`u32` for `f32`, `u64` for
//! `f64`): the library routes and stores them, and never computes with them.

use vstd::prelude::*;
use vstd::arithmetic::power2::pow2;

verus! {

/// Bit `i` of `flags`.
pub open spec fn flag_bit(flags: u8, i: nat) -> bool {
    (flags as nat / pow2(i)) % 2 == 1
}

/// The two bits of `flags` from bit 4 up, as a number.
pub open spec fn fsm_field(flags: u8) -> u8 {
    ((flags as nat / 16) % 4) as u8
}

/// A full telemetry packet.
#[derive(Clone, Debug)]
pub struct RobotState {
    pub vision: VisionData,
    pub sensors: SensorData,
    pub motion: MotionData,
    pub game: GameState,
    pub peer: PeerRobot,
    /// The ESP-NOW id of the sending robot: 0 or 1, and -1 before any
    /// packet has named one.
    pub esp_now_bot_id: i8,
    /// Free-form numbers for the console (`f64` bit patterns).
    pub console_print: Vec<u64>,
}

} // verus!
verus! {

/// Vision readings of the CM5 camera board.
#[derive(Clone, Copy, Debug)]
pub struct VisionData {
    pub heading: u32,
    pub global_x: u32,
    pub global_y: u32,
    pub ball_rot: u32,
    pub ball_dist: u32,
    pub ball_exists: bool,
    pub target_goal_rot: u32,
    pub target_goal_dist: u32,
    pub own_goal_rot: u32,
    pub own_goal_dist: u32,
    pub away_from_own_goal_angle: u32,
    pub target_goal_label: u8,
    pub own_goal_label: u8,
    pub num_detections: u8,
    pub object_label: [u8; 6],
    pub object_rot_deg: [u32; 6],
    pub object_dist_cm: [u32; 6],
    pub cm5_running: bool,
}

/// Line sensor and ball sensor readings.
#[derive(Clone, Copy, Debug)]
pub struct SensorData {
    pub line_rot: i16,
    pub progress: i16,
    pub line_seen: bool,
    pub has_ball: bool,
    pub ball_light_gate: i16,
    pub ena: bool,
}

/// Motion and positioning estimates.
#[derive(Clone, Copy, Debug)]
pub struct MotionData {
    pub velocity_x: u32,
    pub velocity_y: u32,
    pub velocity_magnitude: u32,
    pub rotation_delta: u32,
    pub middle_point_vec_x: u32,
    pub middle_point_vec_y: u32,
    pub middle_point_vec_angle: u32,
    pub middle_point_vec_magnitude: u32,
}

/// The game state byte: bit 0 running, bit 1 goalie, bit 2 target goal is
/// yellow, bit 3 switch wanted, bits 4 and 5 the state machine's state.
#[derive(Clone, Copy, Debug)]
pub struct GameState {
    pub flags: u8,
}

/// What the robot knows of its team mate; the flags byte holds bit 0
/// running, bit 1 goalie, bit 2 sees line, bit 3 ball exists, bit 4 switch
/// wanted, bit 5 peer alive.
#[derive(Clone, Copy, Debug)]
pub struct PeerRobot {
    pub global_x: u32,
    pub global_y: u32,
    pub heading: u32,
    pub ball_rot: u32,
    pub ball_dist: u32,
    pub flags: u8,
}

} // verus!
verus! {

impl VisionData {
    /// Every reading is zero (the bit pattern of `0.0`), every flag false.
    pub open spec fn is_blank(self) -> bool {
        &&& self.heading == 0 && self.global_x == 0 && self.global_y == 0
        &&& self.ball_rot == 0 && self.ball_dist == 0 && !self.ball_exists
        &&& self.target_goal_rot == 0 && self.target_goal_dist == 0
        &&& self.own_goal_rot == 0 && self.own_goal_dist == 0
        &&& self.away_from_own_goal_angle == 0
        &&& self.target_goal_label == 0 && self.own_goal_label == 0 && self.num_detections == 0
        &&& self.object_label@ == seq![0u8, 0u8, 0u8, 0u8, 0u8, 0u8]
        &&& self.object_rot_deg@ == seq![0u32, 0u32, 0u32, 0u32, 0u32, 0u32]
        &&& self.object_dist_cm@ == seq![0u32, 0u32, 0u32, 0u32, 0u32, 0u32]
        &&& !self.cm5_running
    }
}

impl Default for VisionData {
    fn default() -> (r: Self)
        ensures
            r.is_blank(),
    {
        let r = VisionData {
            heading: 0,
            global_x: 0,
            global_y: 0,
            ball_rot: 0,
            ball_dist: 0,
            ball_exists: false,
            target_goal_rot: 0,
            target_goal_dist: 0,
            own_goal_rot: 0,
            own_goal_dist: 0,
            away_from_own_goal_angle: 0,
            target_goal_label: 0,
            own_goal_label: 0,
            num_detections: 0,
            object_label: [0, 0, 0, 0, 0, 0],
            object_rot_deg: [0, 0, 0, 0, 0, 0],
            object_dist_cm: [0, 0, 0, 0, 0, 0],
            cm5_running: false,
        };
        assert(r.object_label@ =~= seq![0u8, 0u8, 0u8, 0u8, 0u8, 0u8]);
        assert(r.object_rot_deg@ =~= seq![0u32, 0u32, 0u32, 0u32, 0u32, 0u32]);
        assert(r.object_dist_cm@ =~= seq![0u32, 0u32, 0u32, 0u32, 0u32, 0u32]);
        r
    }
}

impl SensorData {
    /// Every reading is zero, every flag false.
    pub open spec fn is_blank(self) -> bool {
        &&& self.line_rot == 0 && self.progress == 0 && !self.line_seen
        &&& !self.has_ball && self.ball_light_gate == 0 && !self.ena
    }
}

impl Default for SensorData {
    fn default() -> (r: Self)
        ensures
            r.is_blank(),
    {
        SensorData {
            line_rot: 0,
            progress: 0,
            line_seen: false,
            has_ball: false,
            ball_light_gate: 0,
            ena: false,
        }
    }
}

impl MotionData {
    /// Every reading is zero (the bit pattern of `0.0`).
    pub open spec fn is_blank(self) -> bool {
        &&& self.velocity_x == 0 && self.velocity_y == 0 && self.velocity_magnitude == 0
        &&& self.rotation_delta == 0
        &&& self.middle_point_vec_x == 0 && self.middle_point_vec_y == 0
        &&& self.middle_point_vec_angle == 0 && self.middle_point_vec_magnitude == 0
    }
}

impl Default for MotionData {
    fn default() -> (r: Self)
        ensures
            r.is_blank(),
    {
        MotionData {
            velocity_x: 0,
            velocity_y: 0,
            velocity_magnitude: 0,
            rotation_delta: 0,
            middle_point_vec_x: 0,
            middle_point_vec_y: 0,
            middle_point_vec_angle: 0,
            middle_point_vec_magnitude: 0,
        }
    }
}

impl Default for GameState {
    fn default() -> (r: Self)
        ensures
            r.flags == 0,
    {
        GameState { flags: 0 }
    }
}

impl PeerRobot {
    /// Every reading is zero (the bit pattern of `0.0`), every flag clear.
    pub open spec fn is_blank(self) -> bool {
        &&& self.global_x == 0 && self.global_y == 0 && self.heading == 0
        &&& self.ball_rot == 0 && self.ball_dist == 0 && self.flags == 0
    }
}

impl Default for PeerRobot {
    fn default() -> (r: Self)
        ensures
            r.is_blank(),
    {
        PeerRobot { global_x: 0, global_y: 0, heading: 0, ball_rot: 0, ball_dist: 0, flags: 0 }
    }
}

impl Default for RobotState {
    /// A packet that names no robot yet (id -1), with blank readings.
    fn default() -> (r: Self)
        ensures
            r.vision.is_blank(),
            r.sensors.is_blank(),
            r.motion.is_blank(),
            r.game.flags == 0,
            r.peer.is_blank(),
            r.esp_now_bot_id == -1,
            r.console_print@ == Seq::<u64>::empty(),
    {
        RobotState {
            vision: VisionData::default(),
            sensors: SensorData::default(),
            motion: MotionData::default(),
            game: GameState::default(),
            peer: PeerRobot::default(),
            esp_now_bot_id: -1,
            console_print: Vec::new(),
        }
    }
}

} // verus!
verus! {

proof fn lemma_flag_bits(f: u8)
    ensures
        (f & (1u8 << 0u8) != 0) == flag_bit(f, 0),
        (f & (1u8 << 1u8) != 0) == flag_bit(f, 1),
        (f & (1u8 << 2u8) != 0) == flag_bit(f, 2),
        (f & (1u8 << 3u8) != 0) == flag_bit(f, 3),
        (f & (1u8 << 4u8) != 0) == flag_bit(f, 4),
        (f & (1u8 << 5u8) != 0) == flag_bit(f, 5),
        (f >> 4) & 3 == fsm_field(f),
{
    vstd::arithmetic::power2::lemma2_to64();
    assert((f & (1u8 << 0u8) != 0) == ((f / 1) % 2 == 1)) by (bit_vector);
    assert((f & (1u8 << 1u8) != 0) == ((f / 2) % 2 == 1)) by (bit_vector);
    assert((f & (1u8 << 2u8) != 0) == ((f / 4) % 2 == 1)) by (bit_vector);
    assert((f & (1u8 << 3u8) != 0) == ((f / 8) % 2 == 1)) by (bit_vector);
    assert((f & (1u8 << 4u8) != 0) == ((f / 16) % 2 == 1)) by (bit_vector);
    assert((f & (1u8 << 5u8) != 0) == ((f / 32) % 2 == 1)) by (bit_vector);
    assert((f >> 4) & 3 == (f / 16) % 4) by (bit_vector);
}

impl GameState {
    pub fn is_running(&self) -> (r: bool)
        ensures
            r == flag_bit(self.flags, 0),
    {
        proof {
            lemma_flag_bits(self.flags);
        }
        self.flags & (1u8 << 0u8) != 0
    }

    pub fn is_goalie(&self) -> (r: bool)
        ensures
            r == flag_bit(self.flags, 1),
    {
        proof {
            lemma_flag_bits(self.flags);
        }
        self.flags & (1u8 << 1u8) != 0
    }

    pub fn target_is_yellow(&self) -> (r: bool)
        ensures
            r == flag_bit(self.flags, 2),
    {
        proof {
            lemma_flag_bits(self.flags);
        }
        self.flags & (1u8 << 2u8) != 0
    }

    pub fn switch_wanted(&self) -> (r: bool)
        ensures
            r == flag_bit(self.flags, 3),
    {
        proof {
            lemma_flag_bits(self.flags);
        }
        self.flags & (1u8 << 3u8) != 0
    }

    /// The state of the robot's state machine, 0 to 3.
    pub fn fsm_state(&self) -> (r: u8)
        ensures
            r == fsm_field(self.flags),
            r < 4,
    {
        proof {
            lemma_flag_bits(self.flags);
        }
        (self.flags >> 4) & 0b11
    }
}

impl PeerRobot {
    pub fn is_running(&self) -> (r: bool)
        ensures
            r == flag_bit(self.flags, 0),
    {
        proof {
            lemma_flag_bits(self.flags);
        }
        self.flags & (1u8 << 0u8) != 0
    }

    pub fn is_goalie(&self) -> (r: bool)
        ensures
            r == flag_bit(self.flags, 1),
    {
        proof {
            lemma_flag_bits(self.flags);
        }
        self.flags & (1u8 << 1u8) != 0
    }

    pub fn sees_line(&self) -> (r: bool)
        ensures
            r == flag_bit(self.flags, 2),
    {
        proof {
            lemma_flag_bits(self.flags);
        }
        self.flags & (1u8 << 2u8) != 0
    }

    pub fn ball_exists(&self) -> (r: bool)
        ensures
            r == flag_bit(self.flags, 3),
    {
        proof {
            lemma_flag_bits(self.flags);
        }
        self.flags & (1u8 << 3u8) != 0
    }

    pub fn switch_wanted(&self) -> (r: bool)
        ensures
            r == flag_bit(self.flags, 4),
    {
        proof {
            lemma_flag_bits(self.flags);
        }
        self.flags & (1u8 << 4u8) != 0
    }

    pub fn peer_alive(&self) -> (r: bool)
        ensures
            r == flag_bit(self.flags, 5),
    {
        proof {
            lemma_flag_bits(self.flags);
        }
        self.flags & (1u8 << 5u8) != 0
    }
}

/// 1 for a set flag, 0 for a clear one.
pub open spec fn bit_of(b: bool) -> nat {
    if b {
        1
    } else {
        0
    }
}

/// The game state byte with the given flags and state machine state.
pub open spec fn game_flags_of(
    running: bool,
    goalie: bool,
    target_is_yellow: bool,
    switch_wanted: bool,
    fsm_state: u8,
) -> u8 {
    (bit_of(running) + 2 * bit_of(goalie) + 4 * bit_of(target_is_yellow) + 8 * bit_of(
        switch_wanted,
    ) + 16 * fsm_state) as u8
}

/// The peer flags byte with the given flags.
pub open spec fn peer_flags_of(
    running: bool,
    goalie: bool,
    sees_line: bool,
    ball_exists: bool,
    switch_wanted: bool,
    peer_alive: bool,
) -> u8 {
    (bit_of(running) + 2 * bit_of(goalie) + 4 * bit_of(sees_line) + 8 * bit_of(ball_exists) + 16
        * bit_of(switch_wanted) + 32 * bit_of(peer_alive)) as u8
}

fn bit_value(b: bool) -> (r: u8)
    ensures
        r == bit_of(b),
{
    if b {
        1
    } else {
        0
    }
}

/// Packs flags and a state machine state (below 4) into a game state byte.
pub fn game_flags(
    running: bool,
    goalie: bool,
    target_is_yellow: bool,
    switch_wanted: bool,
    fsm_state: u8,
) -> (r: u8)
    requires
        fsm_state < 4,
    ensures
        r == game_flags_of(running, goalie, target_is_yellow, switch_wanted, fsm_state),
{
    bit_value(running) + 2 * bit_value(goalie) + 4 * bit_value(target_is_yellow) + 8 * bit_value(
        switch_wanted,
    ) + 16 * fsm_state
}

/// Packs the six peer flags into a peer flags byte.
pub fn peer_flags(
    running: bool,
    goalie: bool,
    sees_line: bool,
    ball_exists: bool,
    switch_wanted: bool,
    peer_alive: bool,
) -> (r: u8)
    ensures
        r == peer_flags_of(running, goalie, sees_line, ball_exists, switch_wanted, peer_alive),
{
    bit_value(running) + 2 * bit_value(goalie) + 4 * bit_value(sees_line) + 8 * bit_value(
        ball_exists,
    ) + 16 * bit_value(switch_wanted) + 32 * bit_value(peer_alive)
}

proof fn lemma_flag_values(f: u8)
    ensures
        bit_of(flag_bit(f, 0)) == f % 2,
        bit_of(flag_bit(f, 1)) == (f / 2) % 2,
        bit_of(flag_bit(f, 2)) == (f / 4) % 2,
        bit_of(flag_bit(f, 3)) == (f / 8) % 2,
        bit_of(flag_bit(f, 4)) == (f / 16) % 2,
        bit_of(flag_bit(f, 5)) == (f / 32) % 2,
        fsm_field(f) == (f / 16) % 4,
{
    vstd::arithmetic::power2::lemma2_to64();
}

/// A game state byte reads back the flags and the state it was packed
/// from, and packing what a byte reads gives the byte back with its two
/// unused high bits cleared.
pub proof fn lemma_game_flags_round_trip(
    running: bool,
    goalie: bool,
    target_is_yellow: bool,
    switch_wanted: bool,
    fsm_state: u8,
    flags: u8,
)
    requires
        fsm_state < 4,
    ensures
        ({
            let f = game_flags_of(running, goalie, target_is_yellow, switch_wanted, fsm_state);
            &&& flag_bit(f, 0) == running
            &&& flag_bit(f, 1) == goalie
            &&& flag_bit(f, 2) == target_is_yellow
            &&& flag_bit(f, 3) == switch_wanted
            &&& fsm_field(f) == fsm_state
        }),
        game_flags_of(
            flag_bit(flags, 0),
            flag_bit(flags, 1),
            flag_bit(flags, 2),
            flag_bit(flags, 3),
            fsm_field(flags),
        ) == flags % 64,
{
    let b0 = bit_of(running) as u8;
    let b1 = bit_of(goalie) as u8;
    let b2 = bit_of(target_is_yellow) as u8;
    let b3 = bit_of(switch_wanted) as u8;
    let f = game_flags_of(running, goalie, target_is_yellow, switch_wanted, fsm_state);
    assert(f == b0 + 2 * b1 + 4 * b2 + 8 * b3 + 16 * fsm_state);
    assert(f % 2 == b0 && (f / 2) % 2 == b1 && (f / 4) % 2 == b2 && (f / 8) % 2 == b3 && (f / 16)
        % 4 == fsm_state) by (bit_vector)
        requires
            b0 < 2 && b1 < 2 && b2 < 2 && b3 < 2 && fsm_state < 4,
            f == b0 + 2 * b1 + 4 * b2 + 8 * b3 + 16 * fsm_state,
    ;
    lemma_flag_values(f);
    lemma_flag_values(flags);
    assert(flags % 2 + 2 * ((flags / 2) % 2) + 4 * ((flags / 4) % 2) + 8 * ((flags / 8) % 2) + 16
        * ((flags / 16) % 4) == flags % 64) by (bit_vector);
}

/// A peer flags byte reads back the flags it was packed from, and packing
/// what a byte reads gives the byte back with its two unused high bits
/// cleared.
pub proof fn lemma_peer_flags_round_trip(
    running: bool,
    goalie: bool,
    sees_line: bool,
    ball_exists: bool,
    switch_wanted: bool,
    peer_alive: bool,
    flags: u8,
)
    ensures
        ({
            let f = peer_flags_of(running, goalie, sees_line, ball_exists, switch_wanted, peer_alive);
            &&& flag_bit(f, 0) == running
            &&& flag_bit(f, 1) == goalie
            &&& flag_bit(f, 2) == sees_line
            &&& flag_bit(f, 3) == ball_exists
            &&& flag_bit(f, 4) == switch_wanted
            &&& flag_bit(f, 5) == peer_alive
        }),
        peer_flags_of(
            flag_bit(flags, 0),
            flag_bit(flags, 1),
            flag_bit(flags, 2),
            flag_bit(flags, 3),
            flag_bit(flags, 4),
            flag_bit(flags, 5),
        ) == flags % 64,
{
    let b0 = bit_of(running) as u8;
    let b1 = bit_of(goalie) as u8;
    let b2 = bit_of(sees_line) as u8;
    let b3 = bit_of(ball_exists) as u8;
    let b4 = bit_of(switch_wanted) as u8;
    let b5 = bit_of(peer_alive) as u8;
    let f = peer_flags_of(running, goalie, sees_line, ball_exists, switch_wanted, peer_alive);
    assert(f == b0 + 2 * b1 + 4 * b2 + 8 * b3 + 16 * b4 + 32 * b5);
    assert(f % 2 == b0 && (f / 2) % 2 == b1 && (f / 4) % 2 == b2 && (f / 8) % 2 == b3 && (f / 16)
        % 2 == b4 && (f / 32) % 2 == b5) by (bit_vector)
        requires
            b0 < 2 && b1 < 2 && b2 < 2 && b3 < 2 && b4 < 2 && b5 < 2,
            f == b0 + 2 * b1 + 4 * b2 + 8 * b3 + 16 * b4 + 32 * b5,
    ;
    lemma_flag_values(f);
    lemma_flag_values(flags);
    assert(flags % 2 + 2 * ((flags / 2) % 2) + 4 * ((flags / 4) % 2) + 8 * ((flags / 8) % 2) + 16
        * ((flags / 16) % 2) + 32 * ((flags / 32) % 2) == flags % 64) by (bit_vector);
}

} // verus!
