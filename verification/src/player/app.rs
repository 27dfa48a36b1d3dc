//! Commands to the audio task, what it reports back, and what the screen
//! keeps of it.

use crate::frontend::model::{pad2, two_digits};
use vstd::prelude::*;

verus! {

/// What the audio task is told.
#[derive(Debug, PartialEq, Eq)]
pub enum Command {
    SeekForward,
    SeekBack,
    SeekForwardMucho,
    SeekBackMucho,
    Next,
    Prev,
    Enqueue(String),
    EnqueueUrl(String),
    Play,
    Pause,
    Stop,
    Update,
}

/// What the audio task reports.
#[derive(Debug, PartialEq, Eq)]
pub enum State {
    /// The position in the track, in whole seconds.
    Pos(u64),
    /// The track that plays.
    Track(String),
    Playing,
    Paused,
    Stopped,
}

/// What plays, and how far into it.
#[derive(Debug, PartialEq, Eq)]
pub struct PlaybackInfo {
    pub track: String,
    /// Seconds into the track.
    pub pos: u32,
}

impl Default for PlaybackInfo {
    fn default() -> (r: Self)
        ensures
            r.track@ == Seq::<char>::empty(),
            r.pos == 0,
    {
        PlaybackInfo { track: String::new(), pos: 0 }
    }
}

/// What the screen shows, and whether the user has asked to leave.
#[derive(Debug, PartialEq, Eq)]
pub struct AppData {
    pub info: Option<PlaybackInfo>,
    pub exit: bool,
}

impl Default for AppData {
    fn default() -> (r: Self)
        ensures
            r.info is None,
            !r.exit,
    {
        AppData { info: None, exit: false }
    }
}

/// A key of the keyboard, as far as the player tells keys apart.
#[derive(Clone, Copy, Debug, PartialEq, Eq, Structural)]
pub enum Key {
    Char(char),
    Left,
    Right,
    Down,
    Up,
    PageUp,
    Other,
}

/// What a key does.
#[derive(Debug, PartialEq, Eq)]
pub enum KeyEffect {
    /// The application ends.
    Exit,
    /// The command goes to the audio task.
    Send(Command),
    /// Nothing.
    Nothing,
}

/// What a key does: `q` ends the application, the arrows seek, by a little
/// sideways and by much up and down, and page-up skips to the next track.
pub fn handle_key_event(key: Key) -> (r: KeyEffect)
    ensures
        r == match key {
            Key::Char(c) => if c == 'q' {
                KeyEffect::Exit
            } else {
                KeyEffect::Nothing
            },
            Key::Left => KeyEffect::Send(Command::SeekBack),
            Key::Right => KeyEffect::Send(Command::SeekForward),
            Key::Down => KeyEffect::Send(Command::SeekBackMucho),
            Key::Up => KeyEffect::Send(Command::SeekForwardMucho),
            Key::PageUp => KeyEffect::Send(Command::Next),
            Key::Other => KeyEffect::Nothing,
        },
{
    match key {
        Key::Char(c) => if c == 'q' {
            KeyEffect::Exit
        } else {
            KeyEffect::Nothing
        },
        Key::Left => KeyEffect::Send(Command::SeekBack),
        Key::Right => KeyEffect::Send(Command::SeekForward),
        Key::Down => KeyEffect::Send(Command::SeekBackMucho),
        Key::Up => KeyEffect::Send(Command::SeekForwardMucho),
        Key::PageUp => KeyEffect::Send(Command::Next),
        Key::Other => KeyEffect::Nothing,
    }
}

/// How far a little seek goes, in seconds.
pub const SEEK_STEP: u64 = 5;

/// How far a big seek goes, in seconds.
pub const SEEK_LEAP: u64 = 25;

/// Where a seek command leads from the position `pos`, in seconds: forward
/// by the step or the leap, back by as much but not before the start.
/// Other commands lead nowhere.
pub open spec fn seek_target(command: Command, pos: u64) -> Option<int> {
    match command {
        Command::SeekForward => Some(pos + SEEK_STEP),
        Command::SeekForwardMucho => Some(pos + SEEK_LEAP),
        Command::SeekBack => Some(
            if pos >= SEEK_STEP {
                pos - SEEK_STEP
            } else {
                0
            },
        ),
        Command::SeekBackMucho => Some(
            if pos >= SEEK_LEAP {
                pos - SEEK_LEAP
            } else {
                0
            },
        ),
        _ => None,
    }
}

/// Where a seek command leads from the position `pos`.
pub fn seek_to(command: &Command, pos: u64) -> (r: Option<u64>)
    requires
        pos <= u64::MAX - SEEK_LEAP,
    ensures
        match r {
            Some(target) => seek_target(*command, pos) == Some(target as int),
            None => seek_target(*command, pos) is None,
        },
{
    match command {
        Command::SeekForward => Some(pos + SEEK_STEP),
        Command::SeekForwardMucho => Some(pos + SEEK_LEAP),
        Command::SeekBack => Some(
            if pos >= SEEK_STEP {
                pos - SEEK_STEP
            } else {
                0
            },
        ),
        Command::SeekBackMucho => Some(
            if pos >= SEEK_LEAP {
                pos - SEEK_LEAP
            } else {
                0
            },
        ),
        _ => None,
    }
}

/// What the audio task reports when it is asked how things stand: the
/// position, and then the track that plays, where one does.
pub fn update(pos: u64, track: Option<String>) -> (r: Vec<State>)
    ensures
        r@ == match track {
            Some(t) => seq![State::Pos(pos), State::Track(t)],
            None => seq![State::Pos(pos)],
        },
{
    let mut out: Vec<State> = Vec::new();
    out.push(State::Pos(pos));
    match track {
        Some(t) => {
            out.push(State::Track(t));
            assert(out@ =~= seq![State::Pos(pos), State::Track(t)]);
        },
        None => {
            assert(out@ =~= seq![State::Pos(pos)]);
        },
    }
    out
}

impl AppData {
    /// Takes in a report of the audio task: a position and a track each
    /// take their place, beside what was there of the other; the rest
    /// changes nothing. Of the position the low 32 bits are kept.
    pub fn apply(&mut self, state: State)
        ensures
            final(self).exit == old(self).exit,
            match state {
                State::Pos(secs) => {
                    &&& final(self).info is Some
                    &&& final(self).info->0.pos == (secs % 0x1_0000_0000) as u32
                    &&& final(self).info->0.track@ == match old(self).info {
                        Some(info) => info.track@,
                        None => Seq::<char>::empty(),
                    }
                },
                State::Track(track) => {
                    &&& final(self).info is Some
                    &&& final(self).info->0.track == track
                    &&& final(self).info->0.pos == match old(self).info {
                        Some(info) => info.pos,
                        None => 0,
                    }
                },
                _ => final(self).info == old(self).info,
            },
    {
        match state {
            State::Pos(secs) => {
                let track = match self.info.take() {
                    Some(info) => info.track,
                    None => String::new(),
                };
                self.info = Some(PlaybackInfo { track, pos: (secs % 0x1_0000_0000) as u32 });
            },
            State::Track(track) => {
                let pos = match &self.info {
                    Some(info) => info.pos,
                    None => 0,
                };
                self.info = Some(PlaybackInfo { track, pos });
            },
            _ => {},
        }
    }

    /// Notes that the user has asked to leave.
    pub fn exit(&mut self)
        ensures
            final(self).exit,
            final(self).info == old(self).info,
    {
        self.exit = true;
    }

    /// The position as the screen shows it: hours, all the minutes, and the
    /// seconds of the running minute, two digits each at least.
    pub fn position_text(&self) -> (r: String)
        ensures
            r@ == ({
                let pos = match self.info {
                    Some(info) => info.pos,
                    None => 0,
                };
                two_digits((pos / 3600) as nat) + ":"@ + two_digits((pos / 60) as nat) + ":"@
                    + two_digits((pos % 60) as nat)
            }),
    {
        let pos: u32 = match &self.info {
            Some(info) => info.pos,
            None => 0,
        };
        let mut out = pad2((pos / 3600) as u64);
        out.append(":");
        out.append(pad2((pos / 60) as u64).as_str());
        out.append(":");
        out.append(pad2((pos % 60) as u64).as_str());
        out
    }
}

} // verus!
