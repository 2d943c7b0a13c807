//! The replay panel: choosing a replay file, stepping through its frames
//! and choosing which robot to show.

use vstd::prelude::*;
use vstd::string::*;
use crate::data::robot_state::RobotState;
use crate::text::{ends_with, ends_with_seq, lemma_sorted_unique, same_strings, sort_strings, sorted};
use crate::windows::raw_playback::{deref_state, latest_for_bot, latest_in_frames, lemma_latest_is_last_match};

verus! {

/// One frame of a replay: a packet and the time it arrived (the bit
/// pattern of a UNIX time in seconds, an `f64`).
#[derive(Clone)]
pub struct SerializableTimedState {
    pub timestamp: u64,
    pub state: RobotState,
}

/// Which robot the field view shows.
#[derive(Clone, Copy, PartialEq, Eq, Structural, Debug)]
pub enum VisualizationMode {
    Bot0,
    Bot1,
    BothBots,
}

/// Why a replay could not be loaded; each carries the underlying error's
/// text.
pub enum LoadFailure {
    Open(String),
    Parse(String),
}

/// The replay panel's state.
pub struct PlaybackWindow {
    /// The `.json` files of the replays directory, sorted.
    pub replay_files: Vec<String>,
    /// Index into `replay_files` of the chosen file.
    pub selected_replay_idx: usize,
    /// The frames of the loaded replay.
    pub playback_states: Vec<SerializableTimedState>,
    /// Index of the current frame.
    pub playhead: usize,
    /// Whether the playhead advances by itself.
    pub playing: bool,
    /// The error to show, if any.
    pub playback_error: Option<String>,
    pub mode: VisualizationMode,
    /// The robot whose view of shared things (the ball) counts when both
    /// robots are shown: 0 or 1.
    pub authoritative_bot: u8,
}

/// The replay files among the names of a directory listing: those ending
/// in `".json"`.
pub open spec fn replay_names(entries: Seq<Seq<char>>) -> Seq<Seq<char>>
    decreases entries.len(),
{
    if entries.len() == 0 {
        entries
    } else if ends_with_seq(entries.last(), ".json"@) {
        replay_names(entries.drop_last()).push(entries.last())
    } else {
        replay_names(entries.drop_last())
    }
}

/// The packet to export: the shown robot's, or the authoritative one's when
/// both are shown.
pub open spec fn export_choice<T>(mode: VisualizationMode, auth: u8, s0: Option<T>, s1: Option<T>) -> Option<T> {
    match mode {
        VisualizationMode::Bot0 => s0,
        VisualizationMode::Bot1 => s1,
        VisualizationMode::BothBots => if auth == 0 {
            s0
        } else if auth == 1 {
            s1
        } else {
            None
        },
    }
}

impl PlaybackWindow {
    /// The playhead points at a frame, or there are no frames.
    pub open spec fn playhead_in_range(self) -> bool {
        self.playback_states@.len() == 0 || self.playhead < self.playback_states@.len()
    }

    pub fn new() -> (r: Self)
        ensures
            r.replay_files@.len() == 0,
            r.selected_replay_idx == 0,
            r.playback_states@.len() == 0,
            r.playhead == 0,
            !r.playing,
            r.playback_error is None,
            r.mode == VisualizationMode::Bot0,
            r.authoritative_bot == 0,
    {
        PlaybackWindow {
            replay_files: Vec::new(),
            selected_replay_idx: 0,
            playback_states: Vec::new(),
            playhead: 0,
            playing: false,
            playback_error: None,
            mode: VisualizationMode::Bot0,
            authoritative_bot: 0,
        }
    }
}


/// The names of `entries` that end in `".json"`, in their order.
pub fn filter_replay_names(entries: &Vec<String>) -> (r: Vec<String>)
    ensures
        r.deep_view() == replay_names(entries.deep_view()),
{
    let ghost all = entries.deep_view();
    let mut r: Vec<String> = Vec::new();
    let mut i: usize = 0;
    assert(all.take(0) =~= Seq::<Seq<char>>::empty());
    assert(replay_names(Seq::<Seq<char>>::empty()) =~= Seq::<Seq<char>>::empty());
    while i < entries.len()
        invariant
            i <= entries.len(),
            all == entries.deep_view(),
            r.deep_view() == replay_names(all.take(i as int)),
        decreases entries.len() - i,
    {
        let ghost before = r.deep_view();
        assert(all.take(i + 1).drop_last() =~= all.take(i as int));
        assert(all.take(i + 1).last() == all[i as int]);
        assert(entries[i as int]@ == all[i as int]);
        if ends_with(entries[i].as_str(), ".json") {
            let item = entries[i].clone();
            r.push(item);
            assert(r.deep_view() =~= before.push(item@));
        }
        i += 1;
    }
    assert(all.take(i as int) =~= all);
    r
}

impl PlaybackWindow {
    /// Begins loading the chosen replay: gives the path to read, or, when
    /// there are no replay files, drops the loaded frames, records an error
    /// and gives nothing.
    pub fn start_load(&mut self) -> (path: Option<String>)
        requires
            old(self).replay_files@.len() == 0 || old(self).selected_replay_idx
                < old(self).replay_files@.len(),
        ensures
            old(self).replay_files@.len() == 0 ==> {
                &&& path is None
                &&& final(self).playback_states@.len() == 0
                &&& final(self).playback_error matches Some(e) && e@ == "No replay files found"@
                &&& *final(self) == (PlaybackWindow {
                    playback_states: final(self).playback_states,
                    playback_error: final(self).playback_error,
                    ..*old(self)
                })
            },
            old(self).replay_files@.len() > 0 ==> {
                &&& path matches Some(p) && p@ == "replays/"@ + old(
                    self,
                ).replay_files@[old(self).selected_replay_idx as int]@
                &&& *final(self) == *old(self)
            },
    {
        if self.replay_files.len() == 0 {
            self.playback_states.clear();
            self.playback_error = Some(String::from_str("No replay files found"));
            return None;
        }
        let mut path = String::from_str("replays/");
        path.append(self.replay_files[self.selected_replay_idx].as_str());
        Some(path)
    }

    /// Finishes loading a replay: takes its frames and rewinds to the
    /// first, paused; or, when reading or decoding failed, drops the loaded
    /// frames and records why.
    pub fn finish_load(&mut self, outcome: Result<Vec<SerializableTimedState>, LoadFailure>)
        ensures
            outcome matches Ok(states) ==> *final(self) == (PlaybackWindow {
                playback_states: states,
                playhead: 0,
                playing: false,
                playback_error: None,
                ..*old(self)
            }),
            outcome matches Err(LoadFailure::Open(e)) ==> (final(self).playback_error matches Some(
                m,
            ) && m@ == "Failed to open replay: "@ + e@),
            outcome matches Err(LoadFailure::Parse(e)) ==> (final(self).playback_error matches Some(
                m,
            ) && m@ == "Failed to parse replay: "@ + e@),
            outcome is Err ==> {
                &&& final(self).playback_states@.len() == 0
                &&& *final(self) == (PlaybackWindow {
                    playback_states: final(self).playback_states,
                    playback_error: final(self).playback_error,
                    ..*old(self)
                })
            },
    {
        match outcome {
            Ok(states) => {
                self.playhead = 0;
                self.playback_states = states;
                self.playing = false;
                self.playback_error = None;
            },
            Err(LoadFailure::Open(e)) => {
                self.playback_states.clear();
                let mut m = String::from_str("Failed to open replay: ");
                m.append(e.as_str());
                self.playback_error = Some(m);
            },
            Err(LoadFailure::Parse(e)) => {
                self.playback_states.clear();
                let mut m = String::from_str("Failed to parse replay: ");
                m.append(e.as_str());
                self.playback_error = Some(m);
            },
        }
    }

    /// Takes in a listing of the replays directory (`None` when it could not
    /// be read). The `.json` names, sorted, become the file list when they
    /// differ from it; then the first file is chosen and the result is
    /// `true`: the chosen replay is to be loaded. An unreadable directory
    /// empties the list and the loaded frames and records an error.
    pub fn apply_scan(&mut self, listing: Option<Vec<String>>) -> (reload: bool)
        ensures
            listing matches Some(entries) ==> {
                &&& sorted(final(self).replay_files.deep_view())
                &&& final(self).replay_files.deep_view().to_multiset() == replay_names(
                    entries.deep_view(),
                ).to_multiset()
                &&& reload == (final(self).replay_files.deep_view() != old(
                    self,
                ).replay_files.deep_view())
                &&& *final(self) == (PlaybackWindow {
                    replay_files: final(self).replay_files,
                    selected_replay_idx: if reload {
                        0
                    } else {
                        old(self).selected_replay_idx
                    },
                    ..*old(self)
                })
            },
            listing is None ==> {
                &&& !reload
                &&& final(self).replay_files@.len() == 0
                &&& final(self).playback_states@.len() == 0
                &&& final(self).playback_error matches Some(e) && e@
                    == "Could not read /replays directory"@
                &&& *final(self) == (PlaybackWindow {
                    replay_files: final(self).replay_files,
                    selected_replay_idx: 0,
                    playback_states: final(self).playback_states,
                    playback_error: final(self).playback_error,
                    ..*old(self)
                })
            },
    {
        match listing {
            Some(entries) => {
                let names = sort_strings(filter_replay_names(&entries));
                if !same_strings(&names, &self.replay_files) {
                    self.replay_files = names;
                    self.selected_replay_idx = 0;
                    true
                } else {
                    false
                }
            },
            None => {
                self.replay_files.clear();
                self.selected_replay_idx = 0;
                self.playback_states.clear();
                self.playback_error = Some(String::from_str("Could not read /replays directory"));
                false
            },
        }
    }
}


impl PlaybackWindow {
    /// Steps one frame back and pauses, unless at the first frame; the
    /// result tells whether it stepped.
    pub fn step_back(&mut self) -> (stepped: bool)
        ensures
            stepped == (old(self).playhead > 0),
            stepped ==> *final(self) == (PlaybackWindow {
                playhead: (old(self).playhead - 1) as usize,
                playing: false,
                ..*old(self)
            }),
            !stepped ==> *final(self) == *old(self),
            old(self).playhead_in_range() ==> final(self).playhead_in_range(),
    {
        if self.playhead > 0 {
            self.playhead -= 1;
            self.playing = false;
            true
        } else {
            false
        }
    }

    /// Steps one frame forward and pauses, unless at the last frame; the
    /// result tells whether it stepped.
    pub fn step_forward(&mut self) -> (stepped: bool)
        ensures
            stepped == (old(self).playhead + 1 < old(self).playback_states@.len()),
            stepped ==> *final(self) == (PlaybackWindow {
                playhead: (old(self).playhead + 1) as usize,
                playing: false,
                ..*old(self)
            }),
            !stepped ==> *final(self) == *old(self),
            old(self).playhead_in_range() ==> final(self).playhead_in_range(),
    {
        if self.playhead < self.playback_states.len() && self.playhead + 1 < self.playback_states.len() {
            self.playhead += 1;
            self.playing = false;
            true
        } else {
            false
        }
    }

    /// Moves the playhead to `frame`, as the timeline slider does, and
    /// pauses.
    pub fn seek(&mut self, frame: usize)
        ensures
            *final(self) == (PlaybackWindow { playhead: frame, playing: false, ..*old(self) }),
    {
        self.playhead = frame;
        self.playing = false;
    }

    /// Brings the playhead back onto the last frame when it lies beyond,
    /// and rewinds and pauses when there are no frames.
    pub fn clamp_playhead(&mut self)
        ensures
            final(self).playhead_in_range(),
            old(self).playback_states@.len() == 0 ==> *final(self) == (PlaybackWindow {
                playhead: 0,
                playing: false,
                ..*old(self)
            }),
            old(self).playback_states@.len() > 0 ==> *final(self) == (PlaybackWindow {
                playhead: if old(self).playhead >= old(self).playback_states@.len() {
                    (old(self).playback_states@.len() - 1) as usize
                } else {
                    old(self).playhead
                },
                ..*old(self)
            }),
    {
        let n = self.playback_states.len();
        if self.playhead >= n && n > 0 {
            self.playhead = n - 1;
        }
        if n == 0 {
            self.playhead = 0;
            self.playing = false;
        }
    }

    /// Whether a playing replay is still short of its last frame, so that
    /// it may advance this frame.
    pub fn advance_due(&self) -> (r: bool)
        ensures
            r == (self.playing && self.playback_states@.len() > 1 && self.playhead
                < self.playback_states@.len() - 1),
    {
        let n = self.playback_states.len();
        self.playing && n > 1 && self.playhead < n - 1
    }

    /// Advances a playing replay by one frame when `step` says its time has
    /// come (a judgement on timestamps made outside), and pauses on
    /// reaching the last frame.
    pub fn advance(&mut self, step: bool)
        requires
            old(self).playing,
            old(self).playback_states@.len() > 1,
            old(self).playhead < old(self).playback_states@.len() - 1,
        ensures
            ({
                let playhead = if step {
                    (old(self).playhead + 1) as usize
                } else {
                    old(self).playhead
                };
                *final(self) == (PlaybackWindow {
                    playhead,
                    playing: playhead < old(self).playback_states@.len() - 1,
                    ..*old(self)
                })
            }),
            final(self).playhead_in_range(),
    {
        let n = self.playback_states.len();
        if step {
            self.playhead += 1;
            if self.playhead >= n {
                self.playhead = n - 1;
            }
        }
        if self.playhead >= n - 1 {
            self.playing = false;
        }
    }

    /// Picks what the field view shows, as its radio buttons do: showing
    /// one robot makes it the authoritative one, showing both keeps the
    /// authoritative robot.
    pub fn select_mode(&mut self, mode: VisualizationMode)
        ensures
            *final(self) == (PlaybackWindow {
                mode,
                authoritative_bot: match mode {
                    VisualizationMode::Bot0 => 0,
                    VisualizationMode::Bot1 => 1,
                    VisualizationMode::BothBots => old(self).authoritative_bot,
                },
                ..*old(self)
            }),
    {
        self.mode = mode;
        match mode {
            VisualizationMode::Bot0 => self.authoritative_bot = 0,
            VisualizationMode::Bot1 => self.authoritative_bot = 1,
            VisualizationMode::BothBots => {},
        }
    }

    /// The latest packet of robot `bot_id` at or before the playhead.
    pub fn latest_state_for_bot(&self, bot_id: i8) -> (r: Option<&RobotState>)
        requires
            self.playhead_in_range(),
        ensures
            deref_state(r) == latest_for_bot(
                self.playback_states@,
                if self.playback_states@.len() == 0 {
                    0
                } else {
                    self.playhead + 1
                },
                bot_id,
            ),
    {
        if self.playback_states.len() == 0 {
            return None;
        }
        latest_in_frames(&self.playback_states, self.playhead + 1, bot_id)
    }

    /// The packet that the export button writes out.
    pub fn export_state(&self) -> (r: Option<&RobotState>)
        requires
            self.playhead_in_range(),
        ensures
            ({
                let end = if self.playback_states@.len() == 0 {
                    0
                } else {
                    self.playhead + 1
                };
                deref_state(r) == export_choice(
                    self.mode,
                    self.authoritative_bot,
                    latest_for_bot(self.playback_states@, end, 0),
                    latest_for_bot(self.playback_states@, end, 1),
                )
            }),
    {
        match self.mode {
            VisualizationMode::Bot0 => self.latest_state_for_bot(0),
            VisualizationMode::Bot1 => self.latest_state_for_bot(1),
            VisualizationMode::BothBots => if self.authoritative_bot == 0 {
                self.latest_state_for_bot(0)
            } else if self.authoritative_bot == 1 {
                self.latest_state_for_bot(1)
            } else {
                None
            },
        }
    }
}


/// Scanning the replays directory again while it holds the same names
/// reloads nothing: what `apply_scan` makes of a listing (the `.json` names,
/// sorted) is determined by the listing, so a second scan finds the list it
/// left and reports no reload.
pub proof fn lemma_rescan_reloads_nothing(
    first: PlaybackWindow,
    second: PlaybackWindow,
    entries: Seq<Seq<char>>,
    reload: bool,
)
    requires
        sorted(first.replay_files.deep_view()),
        first.replay_files.deep_view().to_multiset() == replay_names(entries).to_multiset(),
        sorted(second.replay_files.deep_view()),
        second.replay_files.deep_view().to_multiset() == replay_names(entries).to_multiset(),
        reload == (second.replay_files.deep_view() != first.replay_files.deep_view()),
    ensures
        !reload,
{
    lemma_sorted_unique(second.replay_files.deep_view(), first.replay_files.deep_view());
}

/// The exported packet is the latest packet, at or before the playhead, of
/// the robot that is shown: robot 0 or 1 when one robot is shown, the
/// authoritative robot when both are (none when that is neither 0 nor 1).
/// Whatever is exported comes from that robot.
pub proof fn lemma_export_is_shown_robot(
    frames: Seq<SerializableTimedState>,
    end: int,
    mode: VisualizationMode,
    auth: u8,
)
    requires
        0 <= end <= frames.len(),
    ensures
        ({
            let r = export_choice(mode, auth, latest_for_bot(frames, end, 0), latest_for_bot(frames, end, 1));
            &&& (mode == VisualizationMode::Bot0 || (mode == VisualizationMode::BothBots && auth == 0))
                ==> r == latest_for_bot(frames, end, 0)
            &&& (mode == VisualizationMode::Bot1 || (mode == VisualizationMode::BothBots && auth == 1))
                ==> r == latest_for_bot(frames, end, 1)
            &&& (mode == VisualizationMode::BothBots && auth > 1) ==> r is None
            &&& r matches Some(s) ==> {
                ||| s.esp_now_bot_id == 0 && (mode == VisualizationMode::Bot0 || (mode
                    == VisualizationMode::BothBots && auth == 0))
                ||| s.esp_now_bot_id == 1 && (mode == VisualizationMode::Bot1 || (mode
                    == VisualizationMode::BothBots && auth == 1))
            }
        }),
{
    lemma_latest_is_last_match(frames, end, 0);
    lemma_latest_is_last_match(frames, end, 1);
}

} // verus!
