//! The mathematical model of a reading session: its state, the commands it
//! accepts, and how a timer tick or a command changes the state.

use vstd::prelude::*;
use crate::scan::{advanced, is_cursor, is_word_range, lemma_advance_then_retreat,
    lemma_advanced_is_word_range, lemma_retreat_then_advance, lemma_retreated_is_cursor,
    retreated};

verus! {

/// The shortest time a word is shown, in milliseconds.
pub const MIN_MS_PER_WORD: u32 = 25;

/// The longest time a word is shown, in milliseconds.
pub const MAX_MS_PER_WORD: u32 = 1000;

/// By how much one speed command changes the time a word is shown.
pub const MS_PER_WORD_STEP: u32 = 25;

/// The time a word is shown in a new session, in milliseconds.
pub const DEFAULT_MS_PER_WORD: u32 = 150;

/// The speed factor of a new session and after every timed step, in percent.
pub const NORMAL_SPEED_FACTOR: u32 = 100;

/// The columns of the display box that never hold text: its borders and the
/// blank column beside each of them.
pub const BOX_MARGIN: u16 = 4;

/// What the user can ask of a session.
#[derive(Debug, Clone, Copy, PartialEq, Eq, Structural)]
pub enum Command {
    /// Pause when playing, resume when paused.
    TogglePause,
    /// Show the list of commands.
    Help,
    /// Switch the context display during playback on or off.
    ToggleContext,
    /// End the session.
    Quit,
    /// Pause and go back to the first word.
    Reset,
    /// Go to the word before.
    StepBackward,
    /// Go to the next word.
    StepForward,
    /// Show each word for longer.
    Slower,
    /// Show each word for a shorter time.
    Faster,
    /// The terminal lost the input focus.
    FocusLost,
    /// Any other key.
    Other,
}

/// What the session asks to be told to the user after a command.
#[derive(Debug, Clone, Copy, PartialEq, Eq, Structural)]
pub enum Notice {
    Nothing,
    /// The session is now paused.
    Paused,
    /// The session is now playing.
    Resumed,
    /// The list of commands.
    Help,
}

/// What the caller has to do after a command.
#[derive(Debug, Clone, Copy, PartialEq, Eq, Structural)]
pub struct Reaction {
    pub notice: Notice,
    /// Whether the word timer starts anew.
    pub restart_timer: bool,
}

/// The state of a session as plain mathematical values.
pub struct AppView {
    pub text: Seq<char>,
    pub word_start: int,
    pub word_end: int,
    pub ms_per_word: int,
    pub word_speed_factor: int,
    pub paused: bool,
    pub exit: bool,
    pub show_context_when_playing: bool,
}

impl AppView {
    /// The state of a new session on `text`.
    pub open spec fn initial(text: Seq<char>) -> AppView {
        AppView {
            text,
            word_start: 0,
            word_end: 0,
            ms_per_word: DEFAULT_MS_PER_WORD as int,
            word_speed_factor: NORMAL_SPEED_FACTOR as int,
            paused: false,
            exit: false,
            show_context_when_playing: false,
        }
    }

    /// A state is well formed when its cursor pair is valid for its text, the
    /// time per word is a multiple of the step within its limits, and the speed
    /// factor fits 32 bits.
    pub open spec fn wf(self) -> bool {
        &&& is_cursor(self.text, self.word_start, self.word_end)
        &&& MIN_MS_PER_WORD <= self.ms_per_word <= MAX_MS_PER_WORD
        &&& self.ms_per_word % (MS_PER_WORD_STEP as int) == 0
        &&& 0 <= self.word_speed_factor <= u32::MAX
    }

    /// The number of characters of the current word.
    pub open spec fn word_len(self) -> int {
        self.word_end - self.word_start
    }

    /// Whether the current word range reaches the end of the text.
    pub open spec fn at_end(self) -> bool {
        self.word_end >= self.text.len()
    }

    /// Whether the current word range starts at the start of the text.
    pub open spec fn at_start(self) -> bool {
        self.word_start == 0
    }

    /// The state with the cursor pair moved one word forward.
    pub open spec fn after_advance(self) -> AppView {
        let range = advanced(self.text, (self.word_start, self.word_end));
        AppView { word_start: range.0, word_end: range.1, ..self }
    }

    /// The state with the cursor pair moved one word backward.
    pub open spec fn after_retreat(self) -> AppView {
        let range = retreated(self.text, (self.word_start, self.word_end));
        AppView { word_start: range.0, word_end: range.1, ..self }
    }

    /// How long the current word is shown, in milliseconds: the time per word
    /// scaled by the speed factor, rounded down.
    pub open spec fn interval(self) -> int {
        self.ms_per_word * self.word_speed_factor / 100
    }

    /// Whether a tick `elapsed` milliseconds after the timer started moves to
    /// the next word: the session is playing and the word's time is over.
    pub open spec fn tick_due(self, elapsed: int) -> bool {
        !self.exit && !self.paused && elapsed >= self.interval()
    }

    /// The state after a tick `elapsed` milliseconds after the timer started.
    /// A due tick moves one word forward, ends the session if that reached the
    /// end of the text, and sets the speed factor back to normal.
    pub open spec fn after_tick(self, elapsed: int) -> AppView {
        if self.tick_due(elapsed) {
            AppView {
                exit: self.after_advance().at_end(),
                word_speed_factor: NORMAL_SPEED_FACTOR as int,
                ..self.after_advance()
            }
        } else {
            self
        }
    }

    /// The time per word after a command to slow down.
    pub open spec fn slower(self) -> int {
        if self.ms_per_word < MAX_MS_PER_WORD {
            self.ms_per_word + MS_PER_WORD_STEP
        } else {
            self.ms_per_word
        }
    }

    /// The time per word after a command to speed up.
    pub open spec fn faster(self) -> int {
        if self.ms_per_word > MIN_MS_PER_WORD {
            self.ms_per_word - MS_PER_WORD_STEP
        } else {
            self.ms_per_word
        }
    }

    /// The state after the command `cmd`. A session that has ended stays as it
    /// is.
    pub open spec fn after_command(self, cmd: Command) -> AppView {
        if self.exit {
            self
        } else {
            match cmd {
                Command::TogglePause => AppView { paused: !self.paused, ..self },
                Command::Help => self,
                Command::ToggleContext => AppView {
                    show_context_when_playing: !self.show_context_when_playing,
                    ..self
                },
                Command::Quit => AppView { exit: true, ..self },
                Command::Reset => AppView {
                    paused: true,
                    word_start: 0,
                    word_end: 0,
                    ..self
                }.after_advance(),
                Command::StepBackward => self.after_retreat(),
                Command::StepForward => AppView {
                    exit: self.after_advance().at_end(),
                    ..self.after_advance()
                },
                Command::Slower => AppView { ms_per_word: self.slower(), ..self },
                Command::Faster => AppView { ms_per_word: self.faster(), ..self },
                Command::FocusLost => AppView { paused: true, ..self },
                Command::Other => self,
            }
        }
    }

    /// What the user is told after the command `cmd`.
    pub open spec fn notice_for(self, cmd: Command) -> Notice {
        if self.exit {
            Notice::Nothing
        } else {
            match cmd {
                Command::TogglePause => if self.paused {
                    Notice::Resumed
                } else {
                    Notice::Paused
                },
                Command::Help => Notice::Help,
                _ => Notice::Nothing,
            }
        }
    }

    /// What the caller has to do after the command `cmd`: every command to a
    /// running session starts the word timer anew.
    pub open spec fn reaction_to(self, cmd: Command) -> Reaction {
        Reaction { notice: self.notice_for(cmd), restart_timer: !self.exit }
    }

    /// Whether the text around the current word is shown: always while paused,
    /// and during playback where the user asked for it.
    pub open spec fn context_shown(self) -> bool {
        self.paused || self.show_context_when_playing
    }

    /// The number of characters of context shown on each side of the current
    /// word in a box `box_width` columns wide: half of what the word and the
    /// box's margin leave, rounded down, and nothing where the context is not
    /// shown or the word fills the box.
    pub open spec fn context_len(self, box_width: int) -> int {
        if self.context_shown() && box_width > BOX_MARGIN + self.word_len() {
            (box_width - BOX_MARGIN - self.word_len()) / 2
        } else {
            0
        }
    }

    /// The display rate in words per minute, rounded down.
    pub open spec fn words_per_minute(self) -> int {
        60000int / self.ms_per_word
    }
}

/// A step forward keeps a state well formed and lands on a word range.
pub proof fn lemma_after_advance_wf(v: AppView)
    requires
        v.wf(),
    ensures
        v.after_advance().wf(),
        is_word_range(v.text, v.after_advance().word_start, v.after_advance().word_end),
{
    lemma_advanced_is_word_range(v.text, v.word_start, v.word_end);
}

/// A step backward keeps a state well formed.
pub proof fn lemma_after_retreat_wf(v: AppView)
    requires
        v.wf(),
    ensures
        v.after_retreat().wf(),
{
    lemma_retreated_is_cursor(v.text, v.word_start, v.word_end);
}

/// Round trip: while a word is shown, a step forward followed by a step
/// backward restores the state, and so does a step backward followed by a
/// step forward.
pub proof fn lemma_step_round_trip(v: AppView)
    requires
        v.wf(),
        v.word_start < v.word_end,
    ensures
        v.after_advance().after_retreat() == v,
        v.after_retreat().after_advance() == v,
{
    lemma_advance_then_retreat(v.text, v.word_start, v.word_end);
    lemma_retreat_then_advance(v.text, v.word_start, v.word_end);
}

/// Every tick keeps a state well formed; so the cursor pair stays within the
/// text and the time per word within its limits.
pub proof fn lemma_after_tick_wf(v: AppView, elapsed: int)
    requires
        v.wf(),
    ensures
        v.after_tick(elapsed).wf(),
{
    lemma_after_advance_wf(v);
}

/// Every command keeps a state well formed; so the cursor pair stays within the
/// text and the time per word within its limits.
pub proof fn lemma_after_command_wf(v: AppView, cmd: Command)
    requires
        v.wf(),
    ensures
        v.after_command(cmd).wf(),
        MIN_MS_PER_WORD <= v.after_command(cmd).ms_per_word <= MAX_MS_PER_WORD,
{
    lemma_after_advance_wf(v);
    lemma_after_retreat_wf(v);
    lemma_after_advance_wf(AppView { paused: true, word_start: 0, word_end: 0, ..v });
}

/// A session that has ended never changes again, whatever tick or command
/// comes.
pub proof fn lemma_ended_is_final(v: AppView, cmd: Command, elapsed: int)
    requires
        v.exit,
    ensures
        v.after_command(cmd) == v,
        v.after_tick(elapsed) == v,
{
}

/// Switching the context display twice restores the state, and with it the
/// number of context characters shown on each side, in a box of any width.
pub proof fn lemma_toggle_context_twice(v: AppView, box_width: int)
    ensures
        v.after_command(Command::ToggleContext).after_command(Command::ToggleContext) == v,
        v.after_command(Command::ToggleContext).after_command(
            Command::ToggleContext,
        ).context_len(box_width) == v.context_len(box_width),
{
}

/// Pausing and resuming restores the state.
pub proof fn lemma_toggle_pause_twice(v: AppView)
    ensures
        v.after_command(Command::TogglePause).after_command(Command::TogglePause) == v,
{
}

/// Where the context is shown and the word leaves room in the box, the word
/// with its context on both sides fills the box up to its margin, short of at
/// most one column.
pub proof fn lemma_line_width(v: AppView, box_width: int)
    requires
        v.context_shown(),
        box_width >= BOX_MARGIN + v.word_len(),
    ensures
        box_width - BOX_MARGIN - 1 <= 2 * v.context_len(box_width) + v.word_len() <= box_width
            - BOX_MARGIN,
{
}

/// A command to slow down followed by one to speed up restores the time per
/// word, unless it was at its upper limit; and the other way round, unless it
/// was at its lower limit.
pub proof fn lemma_speed_round_trip(v: AppView)
    requires
        v.wf(),
        !v.exit,
    ensures
        v.ms_per_word < MAX_MS_PER_WORD ==> v.after_command(Command::Slower).after_command(
            Command::Faster,
        ) == v,
        v.ms_per_word > MIN_MS_PER_WORD ==> v.after_command(Command::Faster).after_command(
            Command::Slower,
        ) == v,
{
}

} // verus!
