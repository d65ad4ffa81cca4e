//! The view state machine: scroll cursor, search mode and text, the
//! compiled search pattern, the admitted line buffer, and the staleness
//! resolver that admits only the newest generation's result.
use vstd::prelude::*;

use crate::cursor::sat_i64;
use crate::cursor::saturating_add_i64;
use crate::cursor::saturating_sub_i64;
use crate::pattern::Pattern;
use crate::pattern::pattern_ok;

verus! {

/// Whether the viewer is taking ordinary keys or editing the search text.
#[derive(Clone, Copy, Debug, PartialEq, Eq, Structural)]
pub enum Mode {
    Normal,
    Searching,
}

/// One input event, freed of any terminal backend's encoding.
#[derive(Clone, Copy, Debug, PartialEq, Eq, Structural)]
pub enum InputEvent {
    Key(char),
    Backspace,
    Up,
    Down,
    PageUp,
    PageDown,
    Other,
}

/// Whether the main loop goes on or stops after an event.
#[derive(Clone, Copy, Debug, PartialEq, Eq, Structural)]
pub enum Step {
    Continue,
    Quit,
}

/// What one run of the watched command produced: its captured output as
/// display lines, or a failure message.
pub enum Outcome {
    Lines(Vec<String>),
    Failure(String),
}

/// The outcome of one generation's run, in transit to the resolver.
pub struct PendingResult {
    pub generation: u64,
    pub outcome: Outcome,
}

/// The display lines an outcome turns into: a failure becomes a single
/// synthetic line.
pub open spec fn outcome_lines(o: Outcome) -> Seq<Seq<char>> {
    match o {
        Outcome::Lines(v) => v.deep_view(),
        Outcome::Failure(m) => seq![m@],
    }
}

/// A machine bound: the line count must fit the signed scroll cursor.
pub open spec fn outcome_wf(o: Outcome) -> bool {
    outcome_lines(o).len() <= i64::MAX
}

/// A pending result, abstractly: its generation and its display lines.
pub struct ResultModel {
    pub generation: u64,
    pub lines: Seq<Seq<char>>,
}

impl View for PendingResult {
    type V = ResultModel;

    open spec fn view(&self) -> ResultModel {
        ResultModel { generation: self.generation, lines: outcome_lines(self.outcome) }
    }
}

/// The view state, abstractly.  `pattern` is the text the active pattern
/// was compiled from; `attempted` is the last text handed to the
/// compiler, successfully or not.
#[verifier::ext_equal]
pub struct ViewModel {
    pub cursor: int,
    pub mode: Mode,
    pub search_text: Seq<char>,
    pub pattern: Option<Seq<char>>,
    pub pattern_error: bool,
    pub attempted: Seq<char>,
    pub buffer: Seq<Seq<char>>,
    pub highest: u64,
}

/// The view state at startup: cursor at the top, normal mode, empty
/// search, nothing admitted yet.
pub open spec fn init_model() -> ViewModel {
    ViewModel {
        cursor: 0,
        mode: Mode::Normal,
        search_text: Seq::empty(),
        pattern: None,
        pattern_error: false,
        attempted: Seq::empty(),
        buffer: Seq::empty(),
        highest: 0,
    }
}

/// The view state: owned and mutated only by the main loop.
pub struct ViewState {
    pub buffer: Vec<String>,
    pub cursor: i64,
    pub mode: Mode,
    pub search_text: String,
    pub pattern: Option<Pattern>,
    pub attempted: String,
    pub pattern_error: bool,
    pub highest_admitted_generation: u64,
}

impl View for ViewState {
    type V = ViewModel;

    open spec fn view(&self) -> ViewModel {
        ViewModel {
            cursor: self.cursor as int,
            mode: self.mode,
            search_text: self.search_text@,
            pattern: match self.pattern {
                Some(p) => Some(p.src()),
                None => None,
            },
            pattern_error: self.pattern_error,
            attempted: self.attempted@,
            buffer: self.buffer.deep_view(),
            highest: self.highest_admitted_generation,
        }
    }
}

/// Relies on `String::push`: appends one character.
#[verifier::external_body]
fn push_char(s: &mut String, c: char)
    ensures
        final(s)@ == old(s)@.push(c),
{
    s.push(c);
}

/// Relies on `String::pop`: removes the last character, if any.
#[verifier::external_body]
fn pop_char(s: &mut String)
    ensures
        final(s)@ == (if old(s)@.len() > 0 {
            old(s)@.drop_last()
        } else {
            old(s)@
        }),
{
    s.pop();
}

/// `s` without its last character; the empty sequence stays empty.
pub open spec fn drop_last_char(s: Seq<char>) -> Seq<char> {
    if s.len() > 0 {
        s.drop_last()
    } else {
        s
    }
}

/// Where `G` jumps: the top of the last full page, `max(0, len - height)`.
pub open spec fn bottom_cursor(len: int, height: int) -> int {
    if len >= height {
        len - height
    } else {
        0
    }
}

/// Whether `ev` stops the main loop: `q` or `Q` in normal mode.
pub open spec fn event_quits(v: ViewModel, ev: InputEvent) -> bool {
    v.mode is Normal && (ev == InputEvent::Key('q') || ev == InputEvent::Key('Q'))
}

/// The transition table of the state machine: what one event does to the
/// view state.  The scroll keys act in either mode; character keys edit
/// the search text while searching and are bindings otherwise.
pub open spec fn step_event(v: ViewModel, ev: InputEvent, height: u16) -> ViewModel {
    match ev {
        InputEvent::Key(c) => {
            if v.mode is Searching {
                if c == '\n' || c == '\r' {
                    ViewModel { mode: Mode::Normal, ..v }
                } else if c == '\u{7f}' {
                    ViewModel { search_text: drop_last_char(v.search_text), ..v }
                } else {
                    ViewModel { search_text: v.search_text.push(c), ..v }
                }
            } else if c == 'j' {
                ViewModel { cursor: sat_i64(v.cursor + 1), ..v }
            } else if c == 'k' {
                ViewModel { cursor: sat_i64(v.cursor - 1), ..v }
            } else if c == 'g' {
                ViewModel { cursor: 0, ..v }
            } else if c == 'G' {
                ViewModel { cursor: bottom_cursor(v.buffer.len() as int, height as int), ..v }
            } else if c == '/' {
                ViewModel { mode: Mode::Searching, search_text: Seq::empty(), ..v }
            } else {
                v
            }
        },
        InputEvent::Backspace => {
            if v.mode is Searching {
                ViewModel { search_text: drop_last_char(v.search_text), ..v }
            } else {
                v
            }
        },
        InputEvent::Down => ViewModel { cursor: sat_i64(v.cursor + 1), ..v },
        InputEvent::Up => ViewModel { cursor: sat_i64(v.cursor - 1), ..v },
        InputEvent::PageDown => ViewModel { cursor: sat_i64(v.cursor + (height - 1)), ..v },
        InputEvent::PageUp => ViewModel { cursor: sat_i64(v.cursor - (height - 1)), ..v },
        InputEvent::Other => v,
    }
}

/// Whether an event marks the frame dirty: every effective key does; `G`
/// only when it moves the cursor; unbound events do not.
pub open spec fn event_redraws(v: ViewModel, ev: InputEvent, height: u16) -> bool {
    match ev {
        InputEvent::Key(c) => {
            if v.mode is Searching {
                true
            } else if c == 'j' || c == 'k' || c == 'g' || c == '/' {
                true
            } else if c == 'G' {
                bottom_cursor(v.buffer.len() as int, height as int) != v.cursor
            } else {
                false
            }
        },
        InputEvent::Backspace => v.mode is Searching,
        InputEvent::Up => true,
        InputEvent::Down => true,
        InputEvent::PageUp => true,
        InputEvent::PageDown => true,
        InputEvent::Other => false,
    }
}

/// A whole tick's worth of events, folded in order; a quit event stops
/// the fold, as it stops the loop.
pub open spec fn step_events(v: ViewModel, evs: Seq<InputEvent>, height: u16) -> ViewModel
    decreases evs.len(),
{
    if evs.len() == 0 {
        v
    } else if event_quits(v, evs[0]) {
        v
    } else {
        step_events(step_event(v, evs[0], height), evs.drop_first(), height)
    }
}

/// Whether a tick's events reach a quit event.
pub open spec fn events_quit(v: ViewModel, evs: Seq<InputEvent>, height: u16) -> bool
    decreases evs.len(),
{
    if evs.len() == 0 {
        false
    } else if event_quits(v, evs[0]) {
        true
    } else {
        events_quit(step_event(v, evs[0], height), evs.drop_first(), height)
    }
}

/// Whether any event processed this tick marks the frame dirty.
pub open spec fn events_redraw(v: ViewModel, evs: Seq<InputEvent>, height: u16) -> bool
    decreases evs.len(),
{
    if evs.len() == 0 {
        false
    } else if event_quits(v, evs[0]) {
        false
    } else {
        event_redraws(v, evs[0], height) || events_redraw(
            step_event(v, evs[0], height),
            evs.drop_first(),
            height,
        )
    }
}

/// The cursor clamped into `[0, max(0, len - height)]`.
pub open spec fn clamp_spec(cursor: int, len: int, height: int) -> int {
    let end = bottom_cursor(len, height);
    if cursor < 0 {
        0
    } else if cursor > end {
        end
    } else {
        cursor
    }
}

/// Clamp invariant: for every buffer length and viewport height, the
/// clamped cursor lies in `[0, max(0, len - height)]`.
pub proof fn lemma_clamp_in_range(cursor: int, len: int, height: int)
    requires
        len >= 0,
        height >= 1,
    ensures
        0 <= clamp_spec(cursor, len, height),
        clamp_spec(cursor, len, height) <= (if len - height >= 0 {
            len - height
        } else {
            0
        }),
{
}

/// The staleness resolver, abstractly: a result is admitted exactly when
/// its generation is at least the highest admitted so far; admission
/// replaces the buffer wholesale and records the generation.
pub open spec fn admit_spec(v: ViewModel, generation: u64, lines: Seq<Seq<char>>) -> ViewModel {
    if generation >= v.highest {
        ViewModel { buffer: lines, highest: generation, ..v }
    } else {
        v
    }
}

/// Recompiling the search pattern, abstractly: nothing changes while the
/// text equals the last attempt; an empty text clears the pattern; a text
/// the regex crate accepts becomes the pattern; a rejected text sets the
/// error flag and leaves the previous pattern and everything else alone.
pub open spec fn refresh_spec(v: ViewModel) -> ViewModel {
    if v.search_text == v.attempted {
        v
    } else if v.search_text.len() == 0 {
        ViewModel { attempted: v.search_text, pattern: None, pattern_error: false, ..v }
    } else if pattern_ok(v.search_text) {
        ViewModel {
            attempted: v.search_text,
            pattern: Some(v.search_text),
            pattern_error: false,
            ..v
        }
    } else {
        ViewModel { attempted: v.search_text, pattern_error: true, ..v }
    }
}

/// Pattern memoization law: refreshing with an unchanged search text
/// leaves the whole state — and with it every match result — unchanged.
pub proof fn lemma_pattern_memoization(v: ViewModel)
    requires
        v.search_text == v.attempted,
    ensures
        refresh_spec(v) == v,
{
}

impl ViewState {
    /// The line count fits the signed scroll cursor.
    pub open spec fn inv(&self) -> bool {
        self.buffer@.len() <= i64::MAX
    }

    /// The view state at startup.
    pub fn new() -> (v: ViewState)
        ensures
            v@ == init_model(),
            v.inv(),
    {
        let v = ViewState {
            buffer: Vec::new(),
            cursor: 0,
            mode: Mode::Normal,
            search_text: String::new(),
            pattern: None,
            attempted: String::new(),
            pattern_error: false,
            highest_admitted_generation: 0,
        };
        proof {
            assert(v@.buffer =~~= init_model().buffer);
            assert(v@ =~= init_model());
        }
        v
    }

    /// Applies one input event, as `step_event` describes; reports whether
    /// the loop should stop and whether the frame is now dirty.
    pub fn handle_event(&mut self, ev: InputEvent, height: u16) -> (r: (Step, bool))
        requires
            old(self).inv(),
            height >= 1,
        ensures
            final(self)@ == step_event(old(self)@, ev, height),
            final(self).inv(),
            r.0 == (if event_quits(old(self)@, ev) {
                Step::Quit
            } else {
                Step::Continue
            }),
            r.1 == event_redraws(old(self)@, ev, height),
    {
        match ev {
            InputEvent::Key(c) => {
                if self.mode == Mode::Searching {
                    if c == '\n' || c == '\r' {
                        self.mode = Mode::Normal;
                    } else if c == '\u{7f}' {
                        pop_char(&mut self.search_text);
                    } else {
                        push_char(&mut self.search_text, c);
                    }
                    (Step::Continue, true)
                } else if c == 'q' || c == 'Q' {
                    (Step::Quit, false)
                } else if c == 'j' {
                    self.cursor = saturating_add_i64(self.cursor, 1);
                    (Step::Continue, true)
                } else if c == 'k' {
                    self.cursor = saturating_sub_i64(self.cursor, 1);
                    (Step::Continue, true)
                } else if c == 'g' {
                    self.cursor = 0;
                    (Step::Continue, true)
                } else if c == 'G' {
                    let end = self.bottom(height);
                    let moved = end != self.cursor;
                    self.cursor = end;
                    (Step::Continue, moved)
                } else if c == '/' {
                    self.mode = Mode::Searching;
                    self.search_text = String::new();
                    (Step::Continue, true)
                } else {
                    (Step::Continue, false)
                }
            },
            InputEvent::Backspace => {
                if self.mode == Mode::Searching {
                    pop_char(&mut self.search_text);
                    (Step::Continue, true)
                } else {
                    (Step::Continue, false)
                }
            },
            InputEvent::Down => {
                self.cursor = saturating_add_i64(self.cursor, 1);
                (Step::Continue, true)
            },
            InputEvent::Up => {
                self.cursor = saturating_sub_i64(self.cursor, 1);
                (Step::Continue, true)
            },
            InputEvent::PageDown => {
                self.cursor = saturating_add_i64(self.cursor, (height - 1) as i64);
                (Step::Continue, true)
            },
            InputEvent::PageUp => {
                self.cursor = saturating_sub_i64(self.cursor, (height - 1) as i64);
                (Step::Continue, true)
            },
            InputEvent::Other => (Step::Continue, false),
        }
    }

    /// Where `G` jumps to: the top of the last full page.
    fn bottom(&self, height: u16) -> (r: i64)
        requires
            self.inv(),
        ensures
            r as int == bottom_cursor(self@.buffer.len() as int, height as int),
    {
        let len = self.buffer.len() as i64;
        let h = height as i64;
        if len >= h {
            len - h
        } else {
            0
        }
    }

    /// Clamps the cursor into the valid range for the current buffer, as
    /// constrained mode requires after each event-processing pass.
    pub fn clamp_cursor(&mut self, height: u16)
        requires
            old(self).inv(),
            height >= 1,
        ensures
            final(self)@ == (ViewModel {
                cursor: clamp_spec(
                    old(self)@.cursor,
                    old(self)@.buffer.len() as int,
                    height as int,
                ),
                ..old(self)@
            }),
            final(self).inv(),
    {
        let end = self.bottom(height);
        if self.cursor < 0 {
            self.cursor = 0;
        } else if self.cursor > end {
            self.cursor = end;
        }
    }

    /// The staleness resolver: admits `result` exactly when its generation
    /// is at least the highest admitted so far, replacing the buffer
    /// wholesale; an older result is discarded without any effect.
    pub fn resolve(&mut self, result: PendingResult) -> (admitted: bool)
        requires
            old(self).inv(),
            outcome_wf(result.outcome),
        ensures
            final(self)@ == admit_spec(old(self)@, result@.generation, result@.lines),
            admitted == (result@.generation >= old(self)@.highest),
            final(self).inv(),
    {
        if result.generation >= self.highest_admitted_generation {
            self.highest_admitted_generation = result.generation;
            match result.outcome {
                Outcome::Lines(lines) => {
                    self.buffer = lines;
                },
                Outcome::Failure(message) => {
                    let ghost want = seq![message@];
                    let mut one: Vec<String> = Vec::new();
                    one.push(message);
                    proof {
                        assert(one.deep_view() =~~= want);
                    }
                    self.buffer = one;
                },
            }
            true
        } else {
            false
        }
    }

    /// Recompiles the search pattern when, and only when, the search text
    /// changed since the last attempt, as `refresh_spec` describes.  A
    /// rejected pattern only sets the error flag: the previous pattern
    /// stays active and the buffer is untouched.
    pub fn refresh_pattern(&mut self)
        requires
            old(self).inv(),
        ensures
            final(self)@ == refresh_spec(old(self)@),
            final(self).inv(),
    {
        if self.search_text == self.attempted {
            return ;
        }
        self.attempted = self.search_text.clone();
        if self.search_text.as_str().is_empty() {
            self.pattern = None;
            self.pattern_error = false;
        } else {
            match Pattern::compile(self.search_text.as_str()) {
                Ok(p) => {
                    self.pattern = Some(p);
                    self.pattern_error = false;
                },
                Err(_) => {
                    self.pattern_error = true;
                },
            }
        }
    }
}

/// The resolver run over a whole sequence of delivered results, in order.
pub open spec fn admit_all(v: ViewModel, rs: Seq<ResultModel>) -> ViewModel
    decreases rs.len(),
{
    if rs.len() == 0 {
        v
    } else {
        admit_all(admit_spec(v, rs[0].generation, rs[0].lines), rs.drop_first())
    }
}

/// No regression: once a generation has been admitted, a result of any
/// strictly older generation leaves the state — buffer included —
/// untouched.
pub proof fn lemma_no_regression(v: ViewModel, generation: u64, lines: Seq<Seq<char>>)
    requires
        generation < v.highest,
    ensures
        admit_spec(v, generation, lines) == v,
{
}

/// The highest admitted generation never decreases, whatever results
/// arrive in whatever order.
pub proof fn lemma_highest_monotonic(v: ViewModel, rs: Seq<ResultModel>)
    ensures
        admit_all(v, rs).highest >= v.highest,
    decreases rs.len(),
{
    if rs.len() > 0 {
        lemma_highest_monotonic(admit_spec(v, rs[0].generation, rs[0].lines), rs.drop_first());
    }
}

/// Results older than everything admitted leave the state untouched.
proof fn lemma_all_stale(v: ViewModel, rs: Seq<ResultModel>)
    requires
        forall|j: int| 0 <= j < rs.len() ==> #[trigger] rs[j].generation < v.highest,
    ensures
        admit_all(v, rs) == v,
    decreases rs.len(),
{
    if rs.len() > 0 {
        assert forall|j: int| 0 <= j < rs.drop_first().len() implies #[trigger] rs.drop_first()[j].generation
            < v.highest by {
            assert(rs.drop_first()[j] == rs[j + 1]);
        }
        lemma_all_stale(v, rs.drop_first());
    }
}

/// Monotonic admission law: deliver any sequence of results in any
/// interleaving; as long as one of them carries the strictly highest
/// generation, and that generation is not older than what was already
/// admitted, the final buffer is exactly that result's lines.
pub proof fn lemma_monotonic_admission(v: ViewModel, rs: Seq<ResultModel>, i: int)
    requires
        0 <= i < rs.len(),
        rs[i].generation >= v.highest,
        forall|j: int| 0 <= j < rs.len() && j != i ==> #[trigger] rs[j].generation < rs[i].generation,
    ensures
        admit_all(v, rs).buffer == rs[i].lines,
        admit_all(v, rs).highest == rs[i].generation,
    decreases rs.len(),
{
    let v1 = admit_spec(v, rs[0].generation, rs[0].lines);
    if i == 0 {
        assert forall|j: int| 0 <= j < rs.drop_first().len() implies #[trigger] rs.drop_first()[j].generation
            < v1.highest by {
            assert(rs.drop_first()[j] == rs[j + 1]);
        }
        lemma_all_stale(v1, rs.drop_first());
    } else {
        assert(rs.drop_first()[i - 1] == rs[i]);
        assert forall|j: int|
            0 <= j < rs.drop_first().len() && j != i - 1 implies #[trigger] rs.drop_first()[j].generation
            < rs.drop_first()[i - 1].generation by {
            assert(rs.drop_first()[j] == rs[j + 1]);
        }
        lemma_monotonic_admission(v1, rs.drop_first(), i - 1);
    }
}

} // verus!
