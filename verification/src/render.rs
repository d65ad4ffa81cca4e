//! The renderer: projects the view state and the terminal size into a
//! frame of drawn rows plus a status line.  It holds no state of its own
//! and is skipped entirely on ticks where nothing changed.
use vstd::prelude::*;

use crate::cursor::saturating_add_i64;
use crate::pattern::find_span;
use crate::view::Mode;
use crate::view::ViewModel;
use crate::view::ViewState;

verus! {

/// The terminal drawing area, queried fresh before each redraw.
#[derive(Clone, Copy, Debug, PartialEq, Eq, Structural)]
pub struct Viewport {
    pub width: u16,
    pub height: u16,
}

/// One drawn row: blank, or a buffer line with the span to highlight.
pub enum Row {
    Blank,
    Text { line: String, highlight: Option<(usize, usize)> },
}

/// A drawn frame: the visible rows, and the status line under them.
pub struct Frame {
    pub rows: Vec<Row>,
    pub status: String,
}

/// The span to highlight on buffer line `idx`: the first match of the
/// active pattern, if there is one.
pub open spec fn highlight_spec(v: ViewModel, idx: int) -> Option<(usize, usize)> {
    match v.pattern {
        Some(p) => find_span(p, v.buffer[idx]),
        None => None,
    }
}

/// Whether `row` is what belongs at absolute buffer index `idx`: the
/// buffer line with its highlight when `idx` is inside the buffer, blank
/// outside it.
pub open spec fn row_spec(v: ViewModel, row: Row, idx: int) -> bool {
    if 0 <= idx < v.buffer.len() {
        &&& row matches Row::Text { line, highlight }
        &&& line@ == v.buffer[idx]
        &&& highlight == highlight_spec(v, idx)
    } else {
        row is Blank
    }
}

/// The status line: the search prompt and text while searching, an error
/// mark when the last pattern was rejected, a plain prompt otherwise.
pub open spec fn status_spec(v: ViewModel) -> Seq<char> {
    if v.mode is Searching {
        seq!['/'] + v.search_text
    } else if v.pattern_error {
        seq!['!']
    } else {
        seq![':']
    }
}

/// Whether `f` is the frame that view state `v` draws into `viewport`:
/// one row per viewport line above the status line, each holding what
/// `row_spec` asks of it, and the status line of `status_spec`.
pub open spec fn frame_spec(v: ViewModel, f: Frame, viewport: Viewport) -> bool {
    &&& f.rows@.len() == viewport.height - 1
    &&& (forall|i: int| 0 <= i < f.rows@.len() ==> row_spec(v, #[trigger] f.rows@[i], v.cursor + i))
    &&& f.status@ == status_spec(v)
}

impl ViewState {
    /// Draws `viewport.height - 1` rows starting at the scroll cursor;
    /// rows outside the buffer are blank; the last row of the viewport is
    /// left to the status line.
    pub fn render(&self, viewport: Viewport) -> (f: Frame)
        requires
            self.inv(),
            viewport.height >= 1,
        ensures
            frame_spec(self@, f, viewport),
    {
        let rows_n = (viewport.height - 1) as usize;
        let mut rows: Vec<Row> = Vec::new();
        let mut i: usize = 0;
        while i < rows_n
            invariant
                i <= rows_n <= 65534,
                rows@.len() == i,
                self.inv(),
                forall|k: int|
                    0 <= k < i ==> row_spec(self@, #[trigger] rows@[k], self@.cursor + k),
            decreases rows_n - i,
        {
            let idx = saturating_add_i64(self.cursor, i as i64);
            proof {
                assert(idx as int == self@.cursor + i || self@.cursor + i > i64::MAX);
            }
            let row = if idx >= 0 && (idx as u64) < (self.buffer.len() as u64) {
                let u = (idx as u64) as usize;
                proof {
                    assert(self@.buffer[u as int] == self.buffer@[u as int]@);
                }
                let line = &self.buffer[u];
                let highlight = match &self.pattern {
                    Some(p) => p.first_match(line.as_str()),
                    None => None,
                };
                Row::Text { line: line.clone(), highlight }
            } else {
                Row::Blank
            };
            proof {
                assert(row_spec(self@, row, self@.cursor + i));
            }
            rows.push(row);
            i = i + 1;
        }
        let status = if self.mode == Mode::Searching {
            String::from_str("/").concat(self.search_text.as_str())
        } else if self.pattern_error {
            String::from_str("!")
        } else {
            String::from_str(":")
        };
        proof {
            reveal_strlit("/");
            reveal_strlit("!");
            reveal_strlit(":");
            assert(status@ =~= status_spec(self@));
        }
        Frame { rows, status }
    }
}

} // verus!
