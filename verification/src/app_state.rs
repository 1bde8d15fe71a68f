//! State of the drawing demo: the circles placed on the canvas, the free text,
//! the command bar with its input line and history, and the help overlay.
//! Positions and sizes are the application's own business: a circle carries
//! whatever "pen" the application drew it with.

use vstd::prelude::*;
use crate::fuzzy::{chars_of, lowercased, to_lowercase};
use crate::input::{KeyCommand, TextTarget};
use crate::text_buf::{pop_char, push_char, string_from_chars};

verus! {

/// Most circles the canvas holds.
pub const MAX_CIRCLES: usize = 10_000;

/// Most commands the history keeps.
pub const MAX_HISTORY: usize = 100;

/// Number of colours in the circle palette; circles take them in turn.
pub const CIRCLE_COLOR_COUNT: usize = 5;

/// Whether `c` has the Unicode `White_Space` property.
pub open spec fn is_white_space(c: char) -> bool {
    ||| '\u{9}' <= c <= '\u{d}'
    ||| c == ' '
    ||| c == '\u{85}'
    ||| c == '\u{a0}'
    ||| c == '\u{1680}'
    ||| '\u{2000}' <= c <= '\u{200a}'
    ||| c == '\u{2028}'
    ||| c == '\u{2029}'
    ||| c == '\u{202f}'
    ||| c == '\u{205f}'
    ||| c == '\u{3000}'
}

/// The first position at or after `i` that does not hold white space, or
/// `s.len()` when there is none.
pub open spec fn skip_space(s: Seq<char>, i: int) -> int
    decreases s.len() - i,
{
    if i < 0 || i >= s.len() {
        s.len() as int
    } else if is_white_space(s[i]) {
        skip_space(s, i + 1)
    } else {
        i
    }
}

/// The first position at or after `i` that holds white space, or `s.len()`
/// when there is none.
pub open spec fn skip_word(s: Seq<char>, i: int) -> int
    decreases s.len() - i,
{
    if i < 0 || i >= s.len() {
        s.len() as int
    } else if !is_white_space(s[i]) {
        skip_word(s, i + 1)
    } else {
        i
    }
}

/// The word that starts at the first non-white-space position at or after
/// `i`, if there is one.
pub open spec fn word_after(s: Seq<char>, i: int) -> Option<Seq<char>> {
    let a = skip_space(s, i);
    if a < s.len() {
        Some(s.subrange(a, skip_word(s, a)))
    } else {
        None
    }
}

/// The first white-space separated word of `s`.
pub open spec fn first_word(s: Seq<char>) -> Option<Seq<char>> {
    word_after(s, 0)
}

/// The second white-space separated word of `s`.
pub open spec fn second_word(s: Seq<char>) -> Option<Seq<char>> {
    word_after(s, skip_word(s, skip_space(s, 0)))
}

proof fn lemma_skip_space_range(s: Seq<char>, i: int)
    requires
        0 <= i <= s.len(),
    ensures
        i <= skip_space(s, i) <= s.len(),
        skip_space(s, i) < s.len() ==> !is_white_space(s[skip_space(s, i)]),
    decreases s.len() - i,
{
    if i < s.len() && is_white_space(s[i]) {
        lemma_skip_space_range(s, i + 1);
    }
}

proof fn lemma_skip_word_range(s: Seq<char>, i: int)
    requires
        0 <= i <= s.len(),
    ensures
        i <= skip_word(s, i) <= s.len(),
    decreases s.len() - i,
{
    if i < s.len() && !is_white_space(s[i]) {
        lemma_skip_word_range(s, i + 1);
    }
}

/// Whether `c` has the Unicode `White_Space` property.
fn white_space(c: char) -> (r: bool)
    ensures
        r == is_white_space(c),
{
    ('\u{9}' <= c && c <= '\u{d}') || c == ' ' || c == '\u{85}' || c == '\u{a0}' || c
        == '\u{1680}' || ('\u{2000}' <= c && c <= '\u{200a}') || c == '\u{2028}' || c
        == '\u{2029}' || c == '\u{202f}' || c == '\u{205f}' || c == '\u{3000}'
}

/// The first position at or after `i` that does not hold white space.
fn skip_space_from(s: &[char], i: usize) -> (r: usize)
    requires
        i <= s@.len(),
    ensures
        r == skip_space(s@, i as int),
{
    let mut j = i;
    while j < s.len() && white_space(s[j])
        invariant
            i <= j <= s@.len(),
            skip_space(s@, j as int) == skip_space(s@, i as int),
        decreases s@.len() - j,
    {
        j = j + 1;
    }
    j
}

/// The first position at or after `i` that holds white space.
fn skip_word_from(s: &[char], i: usize) -> (r: usize)
    requires
        i <= s@.len(),
    ensures
        r == skip_word(s@, i as int),
{
    let mut j = i;
    while j < s.len() && !white_space(s[j])
        invariant
            i <= j <= s@.len(),
            skip_word(s@, j as int) == skip_word(s@, i as int),
        decreases s@.len() - j,
    {
        j = j + 1;
    }
    j
}

/// The word after position `i`, with the position just past it.
fn next_word(s: &[char], i: usize) -> (r: (Option<Vec<char>>, usize))
    requires
        i <= s@.len(),
    ensures
        r.1 == skip_word(s@, skip_space(s@, i as int)),
        r.1 <= s@.len(),
        match r.0 {
            Some(w) => word_after(s@, i as int) == Some(w@),
            None => word_after(s@, i as int) is None,
        },
{
    let a = skip_space_from(s, i);
    proof {
        lemma_skip_space_range(s@, i as int);
    }
    let b = skip_word_from(s, a);
    proof {
        lemma_skip_word_range(s@, a as int);
    }
    if a < s.len() {
        let mut w: Vec<char> = Vec::new();
        let mut k = a;
        while k < b
            invariant
                a <= k <= b <= s@.len(),
                w@ == s@.subrange(a as int, k as int),
            decreases b - k,
        {
            w.push(s[k]);
            k = k + 1;
            assert(w@ =~= s@.subrange(a as int, k as int));
        }
        (Some(w), b)
    } else {
        (None, b)
    }
}

/// A circle on the canvas: the pen the application drew it with (where it
/// stands and how large it is) and its index in the colour palette.
#[derive(Clone, Copy, Debug)]
pub struct Circle<P> {
    /// Position and radius, as the application keeps them.
    pub pen: P,
    /// Index into the circle palette, below `CIRCLE_COLOR_COUNT`.
    pub color_index: usize,
}

/// What running the command line asks of the application.
#[derive(Clone, Debug)]
pub enum CommandOutcome {
    /// Leave the demo.
    Exit,
    /// Remove every circle.
    ClearCircles,
    /// The help overlay was toggled.
    ShowHelp,
    /// Resize the cursor to the size that `argument` spells, if it spells one;
    /// `input` is the whole command line.
    Resize { input: String, argument: Option<String> },
    /// The command line is not a command; it is handed back.
    Unknown(String),
}

/// Application state. Knows nothing about the windowing or drawing layers.
pub struct AppState<P> {
    circles: Vec<Circle<P>>,
    next_color_idx: usize,
    /// Whether the command bar is shown.
    pub command_bar_visible: bool,
    /// Whether the help overlay is shown.
    pub help_visible: bool,
    command_text: String,
    typed_text: String,
    history: Vec<String>,
    history_idx: Option<usize>,
}

/// `h` with `entry` appended, the oldest entry dropped first when `h` is
/// full.
pub open spec fn pushed(h: Seq<Seq<char>>, entry: Seq<char>) -> Seq<Seq<char>> {
    if h.len() >= MAX_HISTORY {
        h.drop_first().push(entry)
    } else {
        h.push(entry)
    }
}

/// A text buffer after one backspace: its last character removed, if any.
pub open spec fn erased(text: Seq<char>) -> Seq<char> {
    if text.len() == 0 {
        text
    } else {
        text.drop_last()
    }
}

/// The lower-cased first word of a command line, which selects the command.
pub open spec fn command_word(input: Seq<char>) -> Option<Seq<char>> {
    match first_word(input) {
        Some(w) => Some(lowercased(w)),
        None => None,
    }
}

impl<P> AppState<P> {
    /// The circles, oldest first.
    pub closed spec fn circle_seq(&self) -> Seq<Circle<P>> {
        self.circles@
    }

    /// Palette index the next circle gets.
    pub closed spec fn next_color(&self) -> int {
        self.next_color_idx as int
    }

    /// Whether the command bar is shown.
    pub closed spec fn bar_shown(&self) -> bool {
        self.command_bar_visible
    }

    /// Whether the help overlay is shown.
    pub closed spec fn help_shown(&self) -> bool {
        self.help_visible
    }

    /// The command bar's input line.
    pub closed spec fn command_view(&self) -> Seq<char> {
        self.command_text@
    }

    /// The free text.
    pub closed spec fn typed_view(&self) -> Seq<char> {
        self.typed_text@
    }

    /// The command history, oldest first.
    pub closed spec fn history_view(&self) -> Seq<Seq<char>> {
        self.history@.map_values(|e: String| e@)
    }

    /// Position in the history that the input line was recalled from, if any.
    pub closed spec fn history_pos(&self) -> Option<int> {
        match self.history_idx {
            Some(i) => Some(i as int),
            None => None,
        }
    }

    /// The state's invariant: at most `MAX_CIRCLES` circles, coloured in turn
    /// through the palette from the first; at most `MAX_HISTORY` commands; a
    /// recall position inside the history.
    pub open spec fn wf(&self) -> bool {
        &&& self.circle_seq().len() <= MAX_CIRCLES
        &&& self.next_color() == self.circle_seq().len() as int % (CIRCLE_COLOR_COUNT as int)
        &&& forall|k: int|
            0 <= k < self.circle_seq().len() ==> #[trigger] self.circle_seq()[k].color_index == k
                % (CIRCLE_COLOR_COUNT as int)
        &&& self.history_view().len() <= MAX_HISTORY
        &&& self.history_pos() matches Some(i) ==> 0 <= i < self.history_view().len()
    }

    /// Apart from the texts and the command bar's visibility, the state is
    /// that of `old`.
    pub open spec fn same_except_texts_and_bar(&self, old: &Self) -> bool {
        &&& self.circle_seq() == old.circle_seq()
        &&& self.next_color() == old.next_color()
        &&& self.help_shown() == old.help_shown()
        &&& self.history_view() == old.history_view()
        &&& self.history_pos() == old.history_pos()
    }

    /// The parts that a text edit leaves alone are those of `old`.
    pub open spec fn same_except_texts(&self, old: &Self) -> bool {
        &&& self.circle_seq() == old.circle_seq()
        &&& self.next_color() == old.next_color()
        &&& self.bar_shown() == old.bar_shown()
        &&& self.help_shown() == old.help_shown()
        &&& self.history_view() == old.history_view()
        &&& self.history_pos() == old.history_pos()
    }
}

/// What running the command line does to the line, the help overlay and the
/// history, and what it gives back (see `AppState::execute_command`).
pub open spec fn command_run<P>(
    old: &AppState<P>,
    new: &AppState<P>,
    r: Option<CommandOutcome>,
) -> bool {
    let t = old.command_view();
    let w = command_word(t);
    let h = old.history_view();
    let help = old.help_shown();
    if t.len() == 0 {
        &&& r is None
        &&& new.command_view() == t
        &&& new.help_shown() == help
        &&& new.history_view() == h
    } else {
        &&& new.command_view().len() == 0
        &&& if w == Some("exit"@) || w == Some("quit"@) {
            &&& r matches Some(CommandOutcome::Exit)
            &&& new.history_view() == pushed(h, t)
            &&& new.help_shown() == help
        } else if w == Some("clear"@) {
            &&& r matches Some(CommandOutcome::ClearCircles)
            &&& new.history_view() == pushed(h, t)
            &&& new.help_shown() == help
        } else if w == Some("help"@) || w == Some("?"@) {
            &&& r matches Some(CommandOutcome::ShowHelp)
            &&& new.history_view() == h
            &&& new.help_shown() == !help
        } else if w == Some("resize"@) {
            &&& r matches Some(CommandOutcome::Resize { input, argument })
            &&& input@ == t
            &&& match second_word(t) {
                Some(a) => argument matches Some(s) && s@ == a,
                None => argument is None,
            }
            &&& new.history_view() == h
            &&& new.help_shown() == help
        } else {
            &&& r matches Some(CommandOutcome::Unknown(u))
            &&& u@ == t
            &&& new.history_view() == h
            &&& new.help_shown() == help
        }
    }
}

impl<P> Default for AppState<P> {
    fn default() -> (r: Self)
        ensures
            r.wf(),
            r.circle_seq().len() == 0,
            r.next_color() == 0,
            !r.bar_shown(),
            !r.help_shown(),
            r.command_view().len() == 0,
            r.typed_view().len() == 0,
            r.history_view().len() == 0,
            r.history_pos() is None,
    {
        let r = AppState {
            circles: Vec::new(),
            next_color_idx: 0,
            command_bar_visible: false,
            help_visible: false,
            command_text: String::new(),
            typed_text: String::new(),
            history: Vec::new(),
            history_idx: None,
        };
        assert(r.history_view() =~= Seq::<Seq<char>>::empty());
        r
    }
}

impl<P> AppState<P> {
    /// The circles, oldest first.
    pub fn circles(&self) -> (r: &[Circle<P>])
        ensures
            r@ == self.circle_seq(),
    {
        self.circles.as_slice()
    }

    /// The free text.
    pub fn typed_text(&self) -> (r: &str)
        ensures
            r@ == self.typed_view(),
    {
        self.typed_text.as_str()
    }

    /// The command bar's input line.
    pub fn command_text(&self) -> (r: &str)
        ensures
            r@ == self.command_view(),
    {
        self.command_text.as_str()
    }

    /// Place a circle drawn with `pen`, coloured with the next palette colour.
    /// Returns `false`, and changes nothing, when the canvas is full.
    pub fn add_circle(&mut self, pen: P) -> (added: bool)
        requires
            old(self).wf(),
        ensures
            final(self).wf(),
            added == (old(self).circle_seq().len() < MAX_CIRCLES),
            added ==> final(self).circle_seq() == old(self).circle_seq().push(
                Circle { pen, color_index: old(self).next_color() as usize },
            ),
            !added ==> final(self).circle_seq() == old(self).circle_seq(),
            final(self).typed_view() == old(self).typed_view(),
            final(self).command_view() == old(self).command_view(),
            final(self).bar_shown() == old(self).bar_shown(),
            final(self).help_shown() == old(self).help_shown(),
            final(self).history_view() == old(self).history_view(),
            final(self).history_pos() == old(self).history_pos(),
    {
        if self.circles.len() >= MAX_CIRCLES {
            return false;
        }
        let color = self.next_color_idx;
        self.next_color_idx = (self.next_color_idx + 1) % CIRCLE_COLOR_COUNT;
        self.circles.push(Circle { pen, color_index: color });
        proof {
            let n = old(self).circles@.len() as int;
            assert((n + 1) % 5 == ((n % 5) + 1) % 5) by (nonlinear_arith);
            assert forall|k: int| 0 <= k < self.circles@.len() implies #[trigger] self.circles@[k].color_index
                == k % (CIRCLE_COLOR_COUNT as int) by {
                if k < n {
                    assert(self.circles@[k] == old(self).circles@[k]);
                }
            }
        }
        true
    }

    /// Remove every circle; the palette starts over.
    pub fn clear_circles(&mut self)
        requires
            old(self).wf(),
        ensures
            final(self).wf(),
            final(self).circle_seq().len() == 0,
            final(self).next_color() == 0,
            final(self).typed_view() == old(self).typed_view(),
            final(self).command_view() == old(self).command_view(),
            final(self).bar_shown() == old(self).bar_shown(),
            final(self).help_shown() == old(self).help_shown(),
            final(self).history_view() == old(self).history_view(),
            final(self).history_pos() == old(self).history_pos(),
    {
        self.circles.clear();
        self.next_color_idx = 0;
    }

    /// Show the command bar if it is hidden, hide it if it is shown.
    pub fn toggle_command_bar(&mut self)
        requires
            old(self).wf(),
        ensures
            final(self).wf(),
            final(self).bar_shown() == !old(self).bar_shown(),
            final(self).circle_seq() == old(self).circle_seq(),
            final(self).next_color() == old(self).next_color(),
            final(self).typed_view() == old(self).typed_view(),
            final(self).command_view() == old(self).command_view(),
            final(self).help_shown() == old(self).help_shown(),
            final(self).history_view() == old(self).history_view(),
            final(self).history_pos() == old(self).history_pos(),
    {
        self.command_bar_visible = !self.command_bar_visible;
    }

    /// Append `ch` to the buffer `target` names.
    pub fn type_char(&mut self, ch: char, target: TextTarget)
        requires
            old(self).wf(),
        ensures
            final(self).wf(),
            final(self).same_except_texts(&*old(self)),
            target == TextTarget::Typed ==> final(self).typed_view() == old(self).typed_view().push(ch)
                && final(self).command_view() == old(self).command_view(),
            target == TextTarget::Command ==> final(self).command_view() == old(self).command_view().push(ch) && final(self).typed_view() == old(self).typed_view(),
    {
        match target {
            TextTarget::Typed => push_char(&mut self.typed_text, ch),
            TextTarget::Command => push_char(&mut self.command_text, ch),
        }
    }

    /// Remove the last character of the buffer `target` names, if any.
    pub fn backspace(&mut self, target: TextTarget)
        requires
            old(self).wf(),
        ensures
            final(self).wf(),
            final(self).same_except_texts(&*old(self)),
            target == TextTarget::Typed ==> final(self).typed_view() == erased(old(self).typed_view())
                && final(self).command_view() == old(self).command_view(),
            target == TextTarget::Command ==> final(self).command_view() == erased(
                old(self).command_view(),
            ) && final(self).typed_view() == old(self).typed_view(),
    {
        match target {
            TextTarget::Typed => {
                pop_char(&mut self.typed_text);
            },
            TextTarget::Command => {
                pop_char(&mut self.command_text);
            },
        }
    }

    /// Record `entry` as the newest command, dropping the oldest when the
    /// history is full.
    pub fn push_history(&mut self, entry: String)
        requires
            old(self).wf(),
        ensures
            final(self).wf(),
            final(self).history_view() == pushed(old(self).history_view(), entry@),
            final(self).history_pos() == old(self).history_pos(),
            final(self).circle_seq() == old(self).circle_seq(),
            final(self).next_color() == old(self).next_color(),
            final(self).typed_view() == old(self).typed_view(),
            final(self).command_view() == old(self).command_view(),
            final(self).bar_shown() == old(self).bar_shown(),
            final(self).help_shown() == old(self).help_shown(),
    {
        let ghost h0 = self.history@;
        if self.history.len() >= MAX_HISTORY {
            self.history.remove(0);
        }
        self.history.push(entry);
        proof {
            let h = old(self).history_view();
            if h0.len() >= MAX_HISTORY {
                assert(self.history_view() =~= h.drop_first().push(entry@));
            } else {
                assert(self.history_view() =~= h.push(entry@));
            }
        }
    }

    /// Run the command line and empty it. An empty line does nothing and
    /// gives `None`. Otherwise its first word, lower-cased, picks the
    /// command: `exit` or `quit` exits and `clear` clears, both recorded in
    /// the history; `help` or `?` toggles the help overlay; `resize` hands back
    /// the line and its second word for the application to read a size from;
    /// anything else, a blank line too, hands the line back as unknown.
    pub fn execute_command(&mut self) -> (r: Option<CommandOutcome>)
        requires
            old(self).wf(),
        ensures
            final(self).wf(),
            final(self).circle_seq() == old(self).circle_seq(),
            final(self).next_color() == old(self).next_color(),
            final(self).typed_view() == old(self).typed_view(),
            final(self).bar_shown() == old(self).bar_shown(),
            final(self).history_pos() == old(self).history_pos(),
            command_run(&*old(self), &*final(self), r),
    {
        if self.command_text.as_str().is_empty() {
            return None;
        }
        let input = self.command_text.clone();
        self.command_text = String::new();
        let chars = chars_of(input.as_str());
        let (first, end1) = next_word(chars.as_slice(), 0);
        match first {
            None => Some(CommandOutcome::Unknown(input)),
            Some(w) => {
                let word = string_from_chars(w.as_slice());
                let lw = to_lowercase(word.as_str());
                if lw == "exit".to_owned() || lw == "quit".to_owned() {
                    self.push_history(input);
                    Some(CommandOutcome::Exit)
                } else if lw == "clear".to_owned() {
                    self.push_history(input);
                    Some(CommandOutcome::ClearCircles)
                } else if lw == "help".to_owned() || lw == "?".to_owned() {
                    self.help_visible = !self.help_visible;
                    Some(CommandOutcome::ShowHelp)
                } else if lw == "resize".to_owned() {
                    let (second, _) = next_word(chars.as_slice(), end1);
                    let argument = match second {
                        Some(a) => Some(string_from_chars(a.as_slice())),
                        None => None,
                    };
                    Some(CommandOutcome::Resize { input, argument })
                } else {
                    Some(CommandOutcome::Unknown(input))
                }
            },
        }
    }

    /// Recall the previous command into the input line: the newest when
    /// nothing is recalled yet, else the one before the recalled one (the
    /// oldest stays). Does nothing when the history is empty.
    pub fn history_up(&mut self)
        requires
            old(self).wf(),
        ensures
            final(self).wf(),
            final(self).circle_seq() == old(self).circle_seq(),
            final(self).next_color() == old(self).next_color(),
            final(self).typed_view() == old(self).typed_view(),
            final(self).bar_shown() == old(self).bar_shown(),
            final(self).help_shown() == old(self).help_shown(),
            final(self).history_view() == old(self).history_view(),
            old(self).history_view().len() == 0 ==> final(self).command_view() == old(self).command_view() && final(self).history_pos() == old(self).history_pos(),
            ({
                let h = old(self).history_view();
                let i = match old(self).history_pos() {
                    None => h.len() - 1,
                    Some(p) => if p > 0 {
                        p - 1
                    } else {
                        0
                    },
                };
                h.len() > 0 ==> final(self).history_pos() == Some(i) && final(self).command_view()
                    == h[i]
            }),
    {
        if self.history.is_empty() {
            return;
        }
        let idx = match self.history_idx {
            None => self.history.len() - 1,
            Some(i) => i.saturating_sub(1),
        };
        if idx < self.history.len() {
            self.history_idx = Some(idx);
            self.command_text = self.history[idx].clone();
        }
    }

    /// Recall the next command into the input line; past the newest, leave
    /// the recall and empty the line. Does nothing when nothing is recalled.
    pub fn history_down(&mut self)
        requires
            old(self).wf(),
        ensures
            final(self).wf(),
            final(self).circle_seq() == old(self).circle_seq(),
            final(self).next_color() == old(self).next_color(),
            final(self).typed_view() == old(self).typed_view(),
            final(self).bar_shown() == old(self).bar_shown(),
            final(self).help_shown() == old(self).help_shown(),
            final(self).history_view() == old(self).history_view(),
            ({
                let h = old(self).history_view();
                match old(self).history_pos() {
                    None => final(self).command_view() == old(self).command_view()
                        && final(self).history_pos() is None,
                    Some(p) => if p + 1 < h.len() {
                        final(self).history_pos() == Some(p + 1) && final(self).command_view()
                            == h[p + 1]
                    } else {
                        final(self).history_pos() is None && final(self).command_view().len() == 0
                    },
                }
            }),
    {
        let idx = match self.history_idx {
            Some(i) => i,
            None => {
                return;
            },
        };
        if idx + 1 < self.history.len() {
            self.history_idx = Some(idx + 1);
            self.command_text = self.history[idx + 1].clone();
        } else {
            self.history_idx = None;
            self.command_text = String::new();
        }
    }

    /// Carry out a key command: exit, toggle the command bar, type, erase, or
    /// run the command line. Running it clears the circles for `clear` and
    /// asks to exit for `exit`; its outcome is handed back either way.
    pub fn handle_command(&mut self, cmd: KeyCommand) -> (r: CommandEffect)
        requires
            old(self).wf(),
        ensures
            final(self).wf(),
            final(self).history_pos() == old(self).history_pos(),
            match cmd {
                KeyCommand::Exit => r.exit && r.outcome is None && *final(self) == *old(self),
                KeyCommand::ToggleCommandBar => !r.exit && r.outcome is None && final(self).bar_shown() == !old(self).bar_shown() && final(self).same_except_texts_and_bar(
                    &*old(self),
                ) && final(self).typed_view() == old(self).typed_view() && final(self).command_view() == old(self).command_view(),
                KeyCommand::Char(c, TextTarget::Typed) => !r.exit && r.outcome is None && final(self).same_except_texts(&*old(self)) && final(self).typed_view() == old(self).typed_view().push(c) && final(self).command_view() == old(self).command_view(),
                KeyCommand::Char(c, TextTarget::Command) => !r.exit && r.outcome is None && final(self).same_except_texts(&*old(self)) && final(self).command_view() == old(self).command_view().push(c) && final(self).typed_view() == old(self).typed_view(),
                KeyCommand::Backspace(TextTarget::Typed) => !r.exit && r.outcome is None && final(self).same_except_texts(&*old(self)) && final(self).typed_view() == erased(
                    old(self).typed_view(),
                ) && final(self).command_view() == old(self).command_view(),
                KeyCommand::Backspace(TextTarget::Command) => !r.exit && r.outcome is None
                    && final(self).same_except_texts(&*old(self)) && final(self).command_view()
                    == erased(old(self).command_view()) && final(self).typed_view() == old(self).typed_view(),
                KeyCommand::Execute => {
                    &&& command_run(&*old(self), &*final(self), r.outcome)
                    &&& r.exit == (r.outcome matches Some(CommandOutcome::Exit))
                    &&& final(self).typed_view() == old(self).typed_view()
                    &&& final(self).bar_shown() == old(self).bar_shown()
                    &&& if r.outcome matches Some(CommandOutcome::ClearCircles) {
                        final(self).circle_seq().len() == 0 && final(self).next_color() == 0
                    } else {
                        final(self).circle_seq() == old(self).circle_seq() && final(self).next_color() == old(self).next_color()
                    }
                },
            },
    {
        match cmd {
            KeyCommand::Exit => CommandEffect { exit: true, outcome: None },
            KeyCommand::ToggleCommandBar => {
                self.toggle_command_bar();
                CommandEffect { exit: false, outcome: None }
            },
            KeyCommand::Char(c, target) => {
                self.type_char(c, target);
                CommandEffect { exit: false, outcome: None }
            },
            KeyCommand::Backspace(target) => {
                self.backspace(target);
                CommandEffect { exit: false, outcome: None }
            },
            KeyCommand::Execute => {
                let outcome = self.execute_command();
                let exit = match &outcome {
                    Some(CommandOutcome::Exit) => true,
                    Some(CommandOutcome::ClearCircles) => {
                        self.clear_circles();
                        false
                    },
                    _ => false,
                };
                CommandEffect { exit, outcome }
            },
        }
    }
}

/// What carrying out a key command asks of the application.
#[derive(Clone, Debug)]
pub struct CommandEffect {
    /// Leave the demo.
    pub exit: bool,
    /// Outcome of running the command line, when the command ran it.
    pub outcome: Option<CommandOutcome>,
}

/// A backspace removes exactly the character just typed.
pub proof fn lemma_backspace_undoes_typing(text: Seq<char>, c: char)
    ensures
        erased(text.push(c)) == text,
{
    assert(text.push(c).drop_last() =~= text);
}

/// The history holds at most `MAX_HISTORY` commands: pushing one makes it
/// the newest, and what stays is the newest part of the old history, in order.
pub proof fn lemma_history_keeps_newest(h: Seq<Seq<char>>, e: Seq<char>)
    requires
        h.len() <= MAX_HISTORY,
    ensures
        pushed(h, e).len() == if h.len() < MAX_HISTORY {
            h.len() + 1int
        } else {
            MAX_HISTORY as int
        },
        pushed(h, e).last() == e,
        pushed(h, e) == h.push(e).subrange(
            h.len() + 1 - pushed(h, e).len(),
            h.len() + 1int,
        ),
{
    if h.len() >= MAX_HISTORY {
        assert(h.drop_first().push(e) =~= h.push(e).subrange(1, h.len() + 1int));
    } else {
        assert(h.push(e) =~= h.push(e).subrange(0, h.len() + 1int));
    }
}

/// In a well-formed state the `k`-th circle has palette colour `k` modulo the
/// palette size, and the next circle continues the cycle.
pub proof fn lemma_circle_colors_cycle<P>(s: &AppState<P>, k: int)
    requires
        s.wf(),
        0 <= k < s.circle_seq().len(),
    ensures
        s.circle_seq()[k].color_index == k % (CIRCLE_COLOR_COUNT as int),
        s.next_color() == s.circle_seq().len() as int % (CIRCLE_COLOR_COUNT as int),
{
}

} // verus!
