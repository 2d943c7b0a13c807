//! The raw playback panel: the packets of both robots at the playhead of
//! the replay.

use vstd::prelude::*;
use crate::data::robot_state::RobotState;
use crate::windows::field_playback::SerializableTimedState;

verus! {

/// The raw playback panel; it keeps nothing of its own.
pub struct RawPlaybackWindow;

impl RawPlaybackWindow {
    pub fn new() -> Self {
        RawPlaybackWindow
    }
}

/// A copy of the replay and of its playhead, taken each frame.
#[derive(Clone)]
pub struct PlaybackSnapshot {
    pub playback_states: Vec<SerializableTimedState>,
    pub playhead: usize,
}

/// The last packet of robot `id` among the first `end` frames.
pub open spec fn latest_for_bot(frames: Seq<SerializableTimedState>, end: int, id: i8) -> Option<
    RobotState,
>
    decreases end,
{
    if end <= 0 || end > frames.len() {
        None
    } else if frames[end - 1].state.esp_now_bot_id == id {
        Some(frames[end - 1].state)
    } else {
        latest_for_bot(frames, end - 1, id)
    }
}

/// The packet behind an optional reference.
pub open spec fn deref_state(s: Option<&RobotState>) -> Option<RobotState> {
    match s {
        Some(r) => Some(*r),
        None => None,
    }
}

/// The last packet of robot `id` among the first `end` frames.
pub fn latest_in_frames(frames: &Vec<SerializableTimedState>, end: usize, id: i8) -> (r: Option<
    &RobotState,
>)
    requires
        end <= frames.len(),
    ensures
        deref_state(r) == latest_for_bot(frames@, end as int, id),
{
    let mut k = end;
    while k > 0
        invariant
            k <= end <= frames.len(),
            latest_for_bot(frames@, end as int, id) == latest_for_bot(frames@, k as int, id),
        decreases k,
    {
        if frames[k - 1].state.esp_now_bot_id == id {
            return Some(&frames[k - 1].state);
        }
        k -= 1;
    }
    None
}

impl PlaybackSnapshot {
    /// The packets of robot 0 and of robot 1 that are current at the
    /// playhead: the last of each among the frames up to the playhead.
    pub fn latest_bots(&self) -> (r: (Option<&RobotState>, Option<&RobotState>))
        ensures
            deref_state(r.0) == latest_for_bot(
                self.playback_states@,
                min_end(self.playhead as int, self.playback_states@.len() as int),
                0,
            ),
            deref_state(r.1) == latest_for_bot(
                self.playback_states@,
                min_end(self.playhead as int, self.playback_states@.len() as int),
                1,
            ),
            self.playhead < self.playback_states@.len()
                && self.playback_states@[self.playhead as int].state.esp_now_bot_id == 0
                ==> deref_state(r.0) == Some(self.playback_states@[self.playhead as int].state),
            self.playhead < self.playback_states@.len()
                && self.playback_states@[self.playhead as int].state.esp_now_bot_id == 1
                ==> deref_state(r.1) == Some(self.playback_states@[self.playhead as int].state),
    {
        let n = self.playback_states.len();
        let end = if self.playhead < n {
            self.playhead + 1
        } else {
            n
        };
        (
            latest_in_frames(&self.playback_states, end, 0),
            latest_in_frames(&self.playback_states, end, 1),
        )
    }
}

/// How many frames lie at or before the playhead.
pub open spec fn min_end(playhead: int, len: int) -> int {
    if playhead < len {
        playhead + 1
    } else {
        len
    }
}

/// The latest packet of a robot among the first `end` frames is there
/// exactly when one of those frames (the first included) comes from that
/// robot, and then it is the packet of the last such frame.
pub proof fn lemma_latest_is_last_match(frames: Seq<SerializableTimedState>, end: int, id: i8)
    requires
        0 <= end <= frames.len(),
    ensures
        latest_for_bot(frames, end, id) is Some <==> exists|k: int|
            0 <= k < end && #[trigger] frames[k].state.esp_now_bot_id == id,
        latest_for_bot(frames, end, id) matches Some(s) ==> exists|k: int|
            0 <= k < end && #[trigger] frames[k].state.esp_now_bot_id == id && s == frames[k].state
                && forall|j: int| k < j < end ==> #[trigger] frames[j].state.esp_now_bot_id != id,
    decreases end,
{
    if end > 0 {
        if frames[end - 1].state.esp_now_bot_id == id {
            assert(frames[end - 1].state.esp_now_bot_id == id);
        } else {
            lemma_latest_is_last_match(frames, end - 1, id);
            if exists|k: int| 0 <= k < end && #[trigger] frames[k].state.esp_now_bot_id == id {
                let k = choose|k: int| 0 <= k < end && #[trigger] frames[k].state.esp_now_bot_id == id;
                assert(k != end - 1);
                assert(0 <= k < end - 1 && frames[k].state.esp_now_bot_id == id);
            }
            if latest_for_bot(frames, end, id) is Some {
                let k = choose|k: int|
                    0 <= k < end - 1 && #[trigger] frames[k].state.esp_now_bot_id == id
                        && latest_for_bot(frames, end, id)->0 == frames[k].state && forall|j: int|
                        k < j < end - 1 ==> #[trigger] frames[j].state.esp_now_bot_id != id;
                assert forall|j: int| k < j < end implies #[trigger] frames[j].state.esp_now_bot_id
                    != id by {
                    if j < end - 1 {
                    }
                }
            }
        }
    }
}

/// With the playhead on a frame, the frames that count are exactly the
/// frames up to and including the playhead: the frame at the playhead is
/// always its robot's latest packet, and a robot has a packet exactly when
/// one of frames `0..=playhead` comes from it.
pub proof fn lemma_playhead_frame_counts(frames: Seq<SerializableTimedState>, playhead: int, id: i8)
    requires
        0 <= playhead < frames.len(),
    ensures
        min_end(playhead, frames.len() as int) == playhead + 1,
        frames[playhead].state.esp_now_bot_id == id ==> latest_for_bot(
            frames,
            min_end(playhead, frames.len() as int),
            id,
        ) == Some(frames[playhead].state),
        latest_for_bot(frames, min_end(playhead, frames.len() as int), id) is Some <==> exists|k: int|
            0 <= k <= playhead && #[trigger] frames[k].state.esp_now_bot_id == id,
{
    lemma_latest_is_last_match(frames, playhead + 1, id);
}

} // verus!
