//! The player's decisions on key presses: which file is selected, the
//! denoising threshold, and when playback starts or switches track. The
//! caller performs what the returned command asks.

use vstd::prelude::*;

verus! {

/// The largest threshold, in hundredths of the strongest frequency bin.
pub const MAX_THRESHOLD_HUNDREDTHS: u32 = 10;

/// A key the player reacts to.
#[derive(Debug, Clone, Copy, PartialEq, Eq, Structural)]
pub enum Key {
    Quit,
    Play,
    Switch,
    Down,
    Up,
    Left,
    Right,
    Other,
}

/// What the caller must do after a key.
#[derive(Debug, Clone, Copy, PartialEq, Eq, Structural)]
pub enum Command {
    Nothing,
    /// Denoise file number `file` at the given threshold and play both
    /// versions, the unprocessed one audible.
    StartPlayback { file: usize, threshold_hundredths: u32 },
    /// Make the denoised track audible (or the unprocessed one).
    Listen { denoised: bool },
}

/// The player's state.
#[derive(Debug, Clone, Copy, PartialEq, Eq, Structural)]
pub struct Controls {
    /// Number of files offered.
    pub file_count: usize,
    /// Index of the selected file.
    pub selected: usize,
    /// Denoising threshold in hundredths of the strongest bin.
    pub threshold_hundredths: u32,
    /// A file may be started.
    pub ready_to_play: bool,
    /// The player should close.
    pub exit: bool,
    /// Both tracks of the last started file are playing.
    pub tracks_ready: bool,
    /// The denoised track is the audible one.
    pub denoised_audible: bool,
}

impl Controls {
    /// The selection lies in the list, or is 0 for an empty list, and the
    /// threshold is in range.
    pub open spec fn well_formed(&self) -> bool {
        &&& (self.selected < self.file_count || self.selected == 0)
        &&& self.threshold_hundredths <= MAX_THRESHOLD_HUNDREDTHS
    }

    /// The state after `key`.
    pub open spec fn after_key(self, key: Key) -> Controls {
        match key {
            Key::Quit => Controls { exit: true, ..self },
            Key::Play => if self.ready_to_play && self.selected < self.file_count {
                Controls {
                    ready_to_play: false,
                    tracks_ready: false,
                    denoised_audible: false,
                    ..self
                }
            } else {
                self
            },
            Key::Switch => if self.tracks_ready {
                Controls { denoised_audible: !self.denoised_audible, ..self }
            } else {
                self
            },
            Key::Down => if self.selected + 1 < self.file_count {
                Controls { selected: (self.selected + 1) as usize, ..self }
            } else {
                self
            },
            Key::Up => if self.selected > 0 {
                Controls { selected: (self.selected - 1) as usize, ..self }
            } else {
                self
            },
            Key::Left => if self.threshold_hundredths > 0 {
                Controls { threshold_hundredths: (self.threshold_hundredths - 1) as u32, ..self }
            } else {
                self
            },
            Key::Right => if self.threshold_hundredths < MAX_THRESHOLD_HUNDREDTHS {
                Controls { threshold_hundredths: (self.threshold_hundredths + 1) as u32, ..self }
            } else {
                self
            },
            Key::Other => self,
        }
    }

    /// The command that `key` gives.
    pub open spec fn command_for(self, key: Key) -> Command {
        match key {
            Key::Play => if self.ready_to_play && self.selected < self.file_count {
                Command::StartPlayback {
                    file: self.selected,
                    threshold_hundredths: self.threshold_hundredths,
                }
            } else {
                Command::Nothing
            },
            Key::Switch => if self.tracks_ready {
                Command::Listen { denoised: !self.denoised_audible }
            } else {
                Command::Nothing
            },
            _ => Command::Nothing,
        }
    }

    /// The state of a player offering `file_count` files: the first one
    /// selected, the threshold at one hundredth, ready when there is a file.
    pub fn new(file_count: usize) -> (r: Controls)
        ensures
            r.well_formed(),
            r.file_count == file_count,
            r.selected == 0,
            r.threshold_hundredths == 1,
            r.ready_to_play == (file_count > 0),
            !r.exit,
            !r.tracks_ready,
            !r.denoised_audible,
    {
        Controls {
            file_count,
            selected: 0,
            threshold_hundredths: 1,
            ready_to_play: file_count > 0,
            exit: false,
            tracks_ready: false,
            denoised_audible: false,
        }
    }

    /// Moves the selection down one file, if there is one below.
    pub fn next(&mut self)
        ensures
            *final(self) == old(self).after_key(Key::Down),
    {
        if self.selected < self.file_count && self.file_count - self.selected > 1 {
            self.selected = self.selected + 1;
        }
    }

    /// Moves the selection up one file, if there is one above.
    pub fn previous(&mut self)
        ensures
            *final(self) == old(self).after_key(Key::Up),
    {
        if self.selected > 0 {
            self.selected = self.selected - 1;
        }
    }

    /// Index of the selected file, if the list holds it.
    pub fn selected_file(&self) -> (r: Option<usize>)
        ensures
            r == (if self.selected < self.file_count {
                Some(self.selected)
            } else {
                None
            }),
    {
        if self.selected < self.file_count {
            Some(self.selected)
        } else {
            None
        }
    }

    /// Reacts to `key`.
    pub fn handle_key_event(&mut self, key: Key) -> (c: Command)
        requires
            old(self).well_formed(),
        ensures
            *final(self) == old(self).after_key(key),
            c == old(self).command_for(key),
            final(self).well_formed(),
    {
        match key {
            Key::Quit => {
                self.exit = true;
                Command::Nothing
            },
            Key::Play => {
                match self.selected_file() {
                    Some(file) => {
                        if self.ready_to_play {
                            self.ready_to_play = false;
                            self.tracks_ready = false;
                            self.denoised_audible = false;
                            Command::StartPlayback {
                                file,
                                threshold_hundredths: self.threshold_hundredths,
                            }
                        } else {
                            Command::Nothing
                        }
                    },
                    None => Command::Nothing,
                }
            },
            Key::Switch => {
                if self.tracks_ready {
                    self.denoised_audible = !self.denoised_audible;
                    Command::Listen { denoised: self.denoised_audible }
                } else {
                    Command::Nothing
                }
            },
            Key::Down => {
                self.next();
                Command::Nothing
            },
            Key::Up => {
                self.previous();
                Command::Nothing
            },
            Key::Left => {
                if self.threshold_hundredths > 0 {
                    self.threshold_hundredths = self.threshold_hundredths - 1;
                }
                Command::Nothing
            },
            Key::Right => {
                if self.threshold_hundredths < MAX_THRESHOLD_HUNDREDTHS {
                    self.threshold_hundredths = self.threshold_hundredths + 1;
                }
                Command::Nothing
            },
            Key::Other => Command::Nothing,
        }
    }
}

} // verus!
