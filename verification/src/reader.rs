//! The reading session: the text, the cursor pair of the current word, and
//! the playback settings.

use vstd::prelude::*;
use crate::category::{get_category, CharCategory};
use crate::context::{lemma_sanitized_plain, spaces, window_after, window_before};
use crate::playback::{lemma_after_advance_wf, lemma_after_retreat_wf, AppView, Command, Notice,
    Reaction, BOX_MARGIN, DEFAULT_MS_PER_WORD, MAX_MS_PER_WORD, MIN_MS_PER_WORD,
    MS_PER_WORD_STEP, NORMAL_SPEED_FACTOR};
use crate::sanitize::{crlf_pairs, sanitize_string, sanitized};
use crate::scan::{all_whitespace_in, is_word_range, lemma_skip_whitespace_back_unique,
    lemma_skip_whitespace_unique, lemma_skip_word_back_unique, lemma_skip_word_unique,
    no_whitespace_in};

verus! {

/// The half-open range of character positions of the current word.
#[derive(Debug, Clone, Copy)]
struct Cursor {
    start: usize,
    end: usize,
}

/// A reading session over a text that is loaded once and never changed.
#[derive(Debug)]
pub struct App {
    text: Vec<char>,
    cursor: Cursor,
    ms_per_word: u32,
    pause: bool,
    exit: bool,
    word_speed_factor: u32,
    show_context_when_playing: bool,
}

/// Appends the characters of `text` at the positions `[start, end)` to `out`.
fn push_range(out: &mut String, text: &Vec<char>, start: usize, end: usize)
    requires
        start <= end <= text@.len(),
    ensures
        final(out)@ == old(out)@ + text@.subrange(start as int, end as int),
{
    let mut i = start;
    while i < end
        invariant
            start <= i <= end <= text@.len(),
            out@ == old(out)@ + text@.subrange(start as int, i as int),
        decreases end - i,
    {
        out.push(text[i]);
        i += 1;
        assert(out@ =~= old(out)@ + text@.subrange(start as int, i as int));
    }
}

/// Appends `n` spaces to `out`.
fn push_spaces(out: &mut String, n: usize)
    ensures
        final(out)@ == old(out)@ + spaces(n as int),
{
    let mut i: usize = 0;
    while i < n
        invariant
            i <= n,
            out@ == old(out)@ + spaces(i as int),
        decreases n - i,
    {
        out.push(' ');
        i += 1;
        assert(out@ =~= old(out)@ + spaces(i as int));
    }
}

impl View for App {
    type V = AppView;

    closed spec fn view(&self) -> AppView {
        AppView {
            text: self.text@,
            word_start: self.cursor.start as int,
            word_end: self.cursor.end as int,
            ms_per_word: self.ms_per_word as int,
            word_speed_factor: self.word_speed_factor as int,
            paused: self.pause,
            exit: self.exit,
            show_context_when_playing: self.show_context_when_playing,
        }
    }
}

impl App {
    #[verifier::type_invariant]
    closed spec fn valid(&self) -> bool {
        self@.wf()
    }

    /// A new session on `text`: playing, at the initial cursor pair `(0, 0)`
    /// before the first word, at the default speed, without context display.
    pub fn new(text: Vec<char>) -> (app: App)
        ensures
            app@ == AppView::initial(text@),
            app@.wf(),
    {
        App {
            text,
            cursor: Cursor { start: 0, end: 0 },
            ms_per_word: DEFAULT_MS_PER_WORD,
            pause: false,
            exit: false,
            word_speed_factor: NORMAL_SPEED_FACTOR,
            show_context_when_playing: false,
        }
    }

    /// Moves to the next word: from the end of the current range over any
    /// whitespace to the start of the next word, and on to the whitespace
    /// that ends it. Past the last word the range is empty at the end of the
    /// text. Returns whether the new range reaches the end of the text.
    pub fn next_word(&mut self) -> (done: bool)
        ensures
            final(self)@ == old(self)@.after_advance(),
            done == final(self)@.at_end(),
            final(self)@.wf(),
            is_word_range(final(self)@.text, final(self)@.word_start, final(self)@.word_end),
    {
        proof {
            use_type_invariant(&*self);
            lemma_after_advance_wf(self@);
        }
        let len = self.text.len();
        let mut start = self.cursor.end;
        while start < len && get_category(self.text[start]) == CharCategory::WhiteSpace
            invariant
                len == self.text@.len(),
                self.cursor.end <= start <= len,
                all_whitespace_in(self.text@, self.cursor.end as int, start as int),
            decreases len - start,
        {
            start += 1;
        }
        proof {
            lemma_skip_whitespace_unique(self.text@, self.cursor.end as int, start as int);
        }
        let mut end = start;
        while end < len && get_category(self.text[end]) != CharCategory::WhiteSpace
            invariant
                len == self.text@.len(),
                start <= end <= len,
                no_whitespace_in(self.text@, start as int, end as int),
            decreases len - end,
        {
            end += 1;
        }
        proof {
            lemma_skip_word_unique(self.text@, start as int, end as int);
        }
        self.cursor = Cursor { start, end };
        end >= len
    }

    /// Moves to the word before: from the start of the current range back over
    /// any whitespace to the end of the word before, and on to the whitespace
    /// that precedes it. Before the first word the range is `(0, 0)`. Returns
    /// whether the new range starts at the start of the text.
    pub fn prev_word(&mut self) -> (at_start: bool)
        ensures
            final(self)@ == old(self)@.after_retreat(),
            at_start == final(self)@.at_start(),
            final(self)@.wf(),
    {
        proof {
            use_type_invariant(&*self);
            lemma_after_retreat_wf(self@);
        }
        let mut end = self.cursor.start;
        while end > 0 && get_category(self.text[end - 1]) == CharCategory::WhiteSpace
            invariant
                0 <= end <= self.cursor.start <= self.text@.len(),
                all_whitespace_in(self.text@, end as int, self.cursor.start as int),
            decreases end,
        {
            end -= 1;
        }
        proof {
            lemma_skip_whitespace_back_unique(self.text@, self.cursor.start as int, end as int);
        }
        let mut start = end;
        while start > 0 && get_category(self.text[start - 1]) != CharCategory::WhiteSpace
            invariant
                0 <= start <= end <= self.text@.len(),
                no_whitespace_in(self.text@, start as int, end as int),
            decreases start,
        {
            start -= 1;
        }
        proof {
            lemma_skip_word_back_unique(self.text@, end as int, start as int);
        }
        self.cursor = Cursor { start, end };
        start == 0
    }
    /// The characters at the positions `[cidx_start, cidx_end)` of the text in
    /// their display form.
    pub fn get_word_string(&self, cidx_start: usize, cidx_end: usize) -> (out: String)
        requires
            cidx_start <= cidx_end <= self@.text.len(),
        ensures
            out@ == sanitized(self@.text.subrange(cidx_start as int, cidx_end as int)),
    {
        let mut raw = String::new();
        push_range(&mut raw, &self.text, cidx_start, cidx_end);
        sanitize_string(raw)
    }

    /// The `len` characters that follow position `cidx_start`, padded with
    /// spaces on the right where the text ends earlier, in their display form.
    pub fn get_word_string_forw_padded(&self, cidx_start: usize, len: usize) -> (out: String)
        requires
            cidx_start <= self@.text.len(),
        ensures
            out@ == sanitized(window_after(self@.text, cidx_start as int, len as int)),
            out@.len() + crlf_pairs(window_after(self@.text, cidx_start as int, len as int))
                == len,
    {
        let left = self.text.len() - cidx_start;
        let taken = if len <= left { len } else { left };
        let mut raw = String::new();
        push_range(&mut raw, &self.text, cidx_start, cidx_start + taken);
        push_spaces(&mut raw, len - taken);
        sanitize_string(raw)
    }

    /// The `len` characters that precede position `cidx_end`, padded with
    /// spaces on the left where the text starts later, in their display form.
    pub fn get_word_string_back_padded(&self, cidx_end: usize, len: usize) -> (out: String)
        requires
            cidx_end <= self@.text.len(),
        ensures
            out@ == sanitized(window_before(self@.text, cidx_end as int, len as int)),
            out@.len() + crlf_pairs(window_before(self@.text, cidx_end as int, len as int))
                == len,
    {
        let taken = if len <= cidx_end { len } else { cidx_end };
        let mut raw = String::new();
        push_spaces(&mut raw, len - taken);
        push_range(&mut raw, &self.text, cidx_end - taken, cidx_end);
        sanitize_string(raw)
    }

    /// The current word in its display form. A word holds no line break, so
    /// this is the word as it stands in the text.
    pub fn word_text(&self) -> (out: String)
        ensures
            out@ == sanitized(self@.text.subrange(self@.word_start, self@.word_end)),
            out@ == self@.text.subrange(self@.word_start, self@.word_end),
    {
        proof {
            use_type_invariant(self);
            lemma_sanitized_plain(self@.text.subrange(self@.word_start, self@.word_end));
        }
        self.get_word_string(self.cursor.start, self.cursor.end)
    }

    /// The `len` characters before the current word, padded with spaces on
    /// the left near the start of the text, in their display form.
    pub fn context_before(&self, len: usize) -> (out: String)
        ensures
            out@ == sanitized(window_before(self@.text, self@.word_start, len as int)),
            out@.len() + crlf_pairs(window_before(self@.text, self@.word_start, len as int))
                == len,
    {
        proof {
            use_type_invariant(self);
        }
        self.get_word_string_back_padded(self.cursor.start, len)
    }

    /// The `len` characters after the current word, padded with spaces on the
    /// right near the end of the text, in their display form.
    pub fn context_after(&self, len: usize) -> (out: String)
        ensures
            out@ == sanitized(window_after(self@.text, self@.word_end, len as int)),
            out@.len() + crlf_pairs(window_after(self@.text, self@.word_end, len as int))
                == len,
    {
        proof {
            use_type_invariant(self);
        }
        self.get_word_string_forw_padded(self.cursor.end, len)
    }
    /// One tick of the playback loop, `elapsed_ms` milliseconds after the word
    /// timer started. While playing, once the current word has been shown for
    /// its time, the session moves to the next word, goes back to the normal
    /// speed factor, and ends if the end of the text is reached. Returns
    /// whether it moved, in which case the word timer starts anew.
    pub fn tick(&mut self, elapsed_ms: u32) -> (moved: bool)
        ensures
            final(self)@ == old(self)@.after_tick(elapsed_ms as int),
            moved == old(self)@.tick_due(elapsed_ms as int),
            final(self)@.wf(),
    {
        proof {
            use_type_invariant(&*self);
        }
        if self.exit || self.pause {
            return false;
        }
        assert(self.ms_per_word * self.word_speed_factor <= 1000 * 0xffff_ffff) by (nonlinear_arith)
            requires
                0 <= self.ms_per_word <= 1000,
                0 <= self.word_speed_factor <= 0xffff_ffff,
        ;
        let interval: u64 = (self.ms_per_word as u64) * (self.word_speed_factor as u64) / 100;
        if (elapsed_ms as u64) < interval {
            return false;
        }
        let done = self.next_word();
        self.word_speed_factor = NORMAL_SPEED_FACTOR;
        self.exit = done;
        true
    }

    /// Carries out the command `cmd` and says what the caller has to do. A
    /// session that has ended ignores every command.
    pub fn handle_command(&mut self, cmd: Command) -> (reaction: Reaction)
        ensures
            final(self)@ == old(self)@.after_command(cmd),
            reaction == old(self)@.reaction_to(cmd),
            final(self)@.wf(),
    {
        proof {
            use_type_invariant(&*self);
        }
        if self.exit {
            return Reaction { notice: Notice::Nothing, restart_timer: false };
        }
        let mut notice = Notice::Nothing;
        match cmd {
            Command::TogglePause => {
                self.pause = !self.pause;
                notice = if self.pause {
                    Notice::Paused
                } else {
                    Notice::Resumed
                };
            },
            Command::Help => {
                notice = Notice::Help;
            },
            Command::ToggleContext => {
                self.show_context_when_playing = !self.show_context_when_playing;
            },
            Command::Quit => {
                self.exit = true;
            },
            Command::Reset => {
                self.pause = true;
                self.cursor = Cursor { start: 0, end: 0 };
                let _ = self.next_word();
            },
            Command::StepBackward => {
                let _ = self.prev_word();
            },
            Command::StepForward => {
                let done = self.next_word();
                self.exit = done;
            },
            Command::Slower => {
                if self.ms_per_word < MAX_MS_PER_WORD {
                    self.ms_per_word += MS_PER_WORD_STEP;
                }
            },
            Command::Faster => {
                if self.ms_per_word > MIN_MS_PER_WORD {
                    self.ms_per_word -= MS_PER_WORD_STEP;
                }
            },
            Command::FocusLost => {
                self.pause = true;
            },
            Command::Other => {},
        }
        Reaction { notice, restart_timer: true }
    }

    /// Sets the speed factor, in percent, by which the time of the current
    /// word is scaled; the next timed step sets it back to normal.
    pub fn set_word_speed_factor(&mut self, percent: u32)
        ensures
            final(self)@ == (AppView { word_speed_factor: percent as int, ..old(self)@ }),
            final(self)@.wf(),
    {
        proof {
            use_type_invariant(&*self);
        }
        self.word_speed_factor = percent;
    }

    /// The number of context characters to show on each side of the current
    /// word in a box `box_width` columns wide.
    pub fn context_len(&self, box_width: u16) -> (len: usize)
        ensures
            len == self@.context_len(box_width as int),
    {
        proof {
            use_type_invariant(self);
        }
        let word_len = self.cursor.end - self.cursor.start;
        if !(self.pause || self.show_context_when_playing) || box_width <= BOX_MARGIN {
            return 0;
        }
        let room = (box_width - BOX_MARGIN) as usize;
        if room <= word_len {
            0
        } else {
            (room - word_len) / 2
        }
    }

    /// The display rate in words per minute.
    pub fn words_per_minute(&self) -> (rate: u32)
        ensures
            rate == self@.words_per_minute(),
            rate == 60000int / self@.ms_per_word,
    {
        proof {
            use_type_invariant(self);
        }
        60000 / self.ms_per_word
    }

    /// The position at which the current word starts.
    pub fn word_start(&self) -> (start: usize)
        ensures
            start == self@.word_start,
            self@.wf(),
    {
        proof {
            use_type_invariant(self);
        }
        self.cursor.start
    }

    /// The position at which the current word ends; the word does not include
    /// it.
    pub fn word_end(&self) -> (end: usize)
        ensures
            end == self@.word_end,
            self@.wf(),
    {
        proof {
            use_type_invariant(self);
        }
        self.cursor.end
    }

    /// The number of characters of the text.
    pub fn text_len(&self) -> (len: usize)
        ensures
            len == self@.text.len(),
    {
        self.text.len()
    }

    /// The time for which each word is shown, in milliseconds.
    pub fn ms_per_word(&self) -> (ms: u32)
        ensures
            ms == self@.ms_per_word,
            MIN_MS_PER_WORD <= ms <= MAX_MS_PER_WORD,
    {
        proof {
            use_type_invariant(self);
        }
        self.ms_per_word
    }

    /// The speed factor of the current word, in percent.
    pub fn word_speed_factor(&self) -> (percent: u32)
        ensures
            percent == self@.word_speed_factor,
    {
        self.word_speed_factor
    }

    /// Whether playback is paused.
    pub fn is_paused(&self) -> (paused: bool)
        ensures
            paused == self@.paused,
    {
        self.pause
    }

    /// Whether the session has ended.
    pub fn should_exit(&self) -> (exit: bool)
        ensures
            exit == self@.exit,
    {
        self.exit
    }

    /// Whether the context is shown during playback too.
    pub fn shows_context_when_playing(&self) -> (shown: bool)
        ensures
            shown == self@.show_context_when_playing,
    {
        self.show_context_when_playing
    }
}

} // verus!
