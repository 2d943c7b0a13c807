//! The live field panel: the latest packet of each robot and what the
//! field view shows.
//!
//! Its rolling log keeps packets by arrival time; that bookkeeping compares
//! floating-point times and stays outside the library.

use vstd::prelude::*;
use crate::data::robot_state::RobotState;

verus! {

/// Which robot the field view shows.
#[derive(Clone, Copy, PartialEq, Eq, Structural, Debug)]
pub enum VisualizationMode {
    Bot0,
    Bot1,
    BothBots,
}

/// The live field panel's state.
pub struct FieldWindow {
    /// The latest packet of robot 0 (or of a robot that named none yet).
    pub robot_state_0: Option<RobotState>,
    /// The latest packet of robot 1.
    pub robot_state_1: Option<RobotState>,
    /// Whether arriving packets go to the rolling log.
    pub is_logging: bool,
    pub mode: VisualizationMode,
    /// The robot whose view of shared things counts when both are shown.
    pub authoritative_bot: u8,
}

/// The slots after `state` arrives: robot 0's slot takes packets of robot 0
/// and packets that name no robot yet (-1), robot 1's slot those of
/// robot 1; others are dropped.
pub open spec fn routed(
    slots: (Option<RobotState>, Option<RobotState>),
    state: RobotState,
) -> (Option<RobotState>, Option<RobotState>) {
    if state.esp_now_bot_id == 0 || state.esp_now_bot_id == -1 {
        (Some(state), slots.1)
    } else if state.esp_now_bot_id == 1 {
        (slots.0, Some(state))
    } else {
        slots
    }
}

impl FieldWindow {
    /// A panel that starts from `initial_state`, routed as an arriving
    /// packet would be, showing robot 0, not logging.
    pub fn new(initial_state: RobotState) -> (r: Self)
        ensures
            (r.robot_state_0, r.robot_state_1) == routed((None, None), initial_state),
            !r.is_logging,
            r.mode == VisualizationMode::Bot0,
            r.authoritative_bot == 0,
    {
        let mut w = FieldWindow {
            robot_state_0: None,
            robot_state_1: None,
            is_logging: false,
            mode: VisualizationMode::Bot0,
            authoritative_bot: 0,
        };
        w.on_new_state(initial_state);
        w
    }

    /// Keeps an arriving packet as the latest of its robot.
    pub fn on_new_state(&mut self, state: RobotState)
        ensures
            (final(self).robot_state_0, final(self).robot_state_1) == routed(
                (old(self).robot_state_0, old(self).robot_state_1),
                state,
            ),
            final(self).is_logging == old(self).is_logging,
            final(self).mode == old(self).mode,
            final(self).authoritative_bot == old(self).authoritative_bot,
    {
        match state.esp_now_bot_id {
            0 | -1 => self.robot_state_0 = Some(state),
            1 => self.robot_state_1 = Some(state),
            _ => {},
        }
    }

    /// Picks what the field view shows, as its radio buttons do: showing
    /// one robot makes it the authoritative one, showing both keeps the
    /// authoritative robot.
    pub fn select_mode(&mut self, mode: VisualizationMode)
        ensures
            final(self).mode == mode,
            final(self).authoritative_bot == match mode {
                VisualizationMode::Bot0 => 0,
                VisualizationMode::Bot1 => 1,
                VisualizationMode::BothBots => old(self).authoritative_bot,
            },
            final(self).robot_state_0 == old(self).robot_state_0,
            final(self).robot_state_1 == old(self).robot_state_1,
            final(self).is_logging == old(self).is_logging,
    {
        self.mode = mode;
        match mode {
            VisualizationMode::Bot0 => self.authoritative_bot = 0,
            VisualizationMode::Bot1 => self.authoritative_bot = 1,
            VisualizationMode::BothBots => {},
        }
    }

    /// The packet that the export button writes out: the shown robot's, or
    /// the authoritative one's when both are shown.
    pub fn export_state(&self) -> (r: Option<&RobotState>)
        ensures
            r matches Some(s) ==> match self.mode {
                VisualizationMode::Bot0 => self.robot_state_0 == Some(*s),
                VisualizationMode::Bot1 => self.robot_state_1 == Some(*s),
                VisualizationMode::BothBots => (self.authoritative_bot == 0
                    && self.robot_state_0 == Some(*s)) || (self.authoritative_bot == 1
                    && self.robot_state_1 == Some(*s)),
            },
            r is None ==> match self.mode {
                VisualizationMode::Bot0 => self.robot_state_0 is None,
                VisualizationMode::Bot1 => self.robot_state_1 is None,
                VisualizationMode::BothBots => (self.authoritative_bot == 0
                    && self.robot_state_0 is None) || (self.authoritative_bot == 1
                    && self.robot_state_1 is None) || self.authoritative_bot > 1,
            },
    {
        match self.mode {
            VisualizationMode::Bot0 => self.robot_state_0.as_ref(),
            VisualizationMode::Bot1 => self.robot_state_1.as_ref(),
            VisualizationMode::BothBots => if self.authoritative_bot == 0 {
                self.robot_state_0.as_ref()
            } else if self.authoritative_bot == 1 {
                self.robot_state_1.as_ref()
            } else {
                None
            },
        }
    }
}

} // verus!
