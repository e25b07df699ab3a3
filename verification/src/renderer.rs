//! The scroll renderer: a working copy of the four rows, a scroll state per
//! row, one render pass per tick, and the rule for taking over new text.

use vstd::prelude::*;
use crate::buffer::{blank_rows, is_snapshot, DisplayBuffer, Snapshot, ROWS};
use crate::line::{blanks, render_measured, rendered};
use crate::scroll::{law_row_settles, RowScrollState, ScrollConfig};

verus! {

/// Milliseconds from the start of one render pass to the start of the next
/// on the reference hardware.
pub const TICK_PERIOD_MS: u64 = 1000;

/// What is left of the period once a pass has taken `elapsed` of it.
pub open spec fn rest_of_period(period: int, elapsed: int) -> int {
    if elapsed >= period {
        0
    } else {
        period - elapsed
    }
}

/// How long to sleep after a pass that took `elapsed_ms`, so that the next
/// pass starts one period after this one began. A pass that overran its
/// period is followed at once.
pub fn delay_after_pass(period_ms: u64, elapsed_ms: u64) -> (delay_ms: u64)
    ensures
        delay_ms == rest_of_period(period_ms as int, elapsed_ms as int),
        elapsed_ms + delay_ms == if elapsed_ms >= period_ms {
            elapsed_ms
        } else {
            period_ms
        },
{
    if elapsed_ms >= period_ms {
        0
    } else {
        period_ms - elapsed_ms
    }
}

/// What a renderer is, as a mathematical value.
pub struct RendererState {
    pub config: ScrollConfig,
    /// The working copy of the text, one entry per row.
    pub text: Seq<Seq<char>>,
    /// The scroll state of each row.
    pub rows: Seq<RowScrollState>,
}

/// Four rows in their initial state.
pub open spec fn initial_rows() -> Seq<RowScrollState> {
    Seq::new(ROWS as nat, |i: int| RowScrollState::initial())
}

impl RendererState {
    /// Four rows of text that a machine can hold, four scroll states, each
    /// offset fitting its text.
    pub open spec fn wf(self) -> bool {
        &&& self.config.valid()
        &&& is_snapshot(self.text)
        &&& self.rows.len() == ROWS
        &&& forall|i: int|
            0 <= i < ROWS ==> (#[trigger] self.rows[i]).fits(self.text[i].len() as int, self.config)
    }

    /// The renderer that shows `text` from the start.
    pub open spec fn starting(config: ScrollConfig, text: Seq<Seq<char>>) -> RendererState {
        RendererState { config, text, rows: initial_rows() }
    }

    /// The line that row `i` shows on the next pass.
    pub open spec fn line(self, i: int) -> Seq<char> {
        rendered(self.text[i], self.rows[i].offset as int, self.config.width() as int)
    }

    /// The four lines that the next pass paints.
    pub open spec fn frame(self) -> Seq<Seq<char>> {
        Seq::new(ROWS as nat, |i: int| self.line(i))
    }

    /// The renderer after one pass over all rows: the text is untouched,
    /// every row has moved on by its own rule.
    pub open spec fn after_pass(self) -> RendererState {
        RendererState {
            config: self.config,
            text: self.text,
            rows: Seq::new(
                ROWS as nat,
                |i: int| self.rows[i].advanced(self.text[i].len() as int, self.config),
            ),
        }
    }

    /// The renderer after `passes` passes without an adoption in between.
    pub open spec fn after_passes(self, passes: nat) -> RendererState
        decreases passes,
    {
        if passes == 0 {
            self
        } else {
            self.after_pass().after_passes((passes - 1) as nat)
        }
    }

    /// The number of passes that row `i` takes at most to complete.
    pub open spec fn row_passes_to_settle(self, i: int) -> nat {
        self.rows[i].passes_to_settle(self.text[i].len() as int, self.config)
    }

    /// The number of passes after which every row is complete at the
    /// latest: what the slowest row takes.
    pub open spec fn passes_to_settle(self) -> nat {
        let a = self.row_passes_to_settle(0);
        let b = self.row_passes_to_settle(1);
        let c = self.row_passes_to_settle(2);
        let d = self.row_passes_to_settle(3);
        let ab = if a >= b { a } else { b };
        let cd = if c >= d { c } else { d };
        if ab >= cd {
            ab
        } else {
            cd
        }
    }

    /// Every row has completed a scroll pass since the text was adopted.
    pub open spec fn settled(self) -> bool {
        forall|i: int| 0 <= i < ROWS ==> (#[trigger] self.rows[i]).completed
    }

    /// The renderer after it has taken over `snapshot`.
    pub open spec fn adopting(self, snapshot: Seq<Seq<char>>) -> RendererState {
        Self::starting(self.config, snapshot)
    }

    /// The renderer after an attempt to take over `snapshot`: the attempt
    /// goes through only when every row is settled.
    pub open spec fn after_attempt(self, snapshot: Seq<Seq<char>>) -> RendererState {
        if self.settled() {
            self.adopting(snapshot)
        } else {
            self
        }
    }
}

/// A row whose text fits the display is shown whole, padded with trailing
/// blanks to exactly the display width, and is complete after a single
/// pass, whatever its state was before. Its offset does not move.
pub proof fn law_short_row_settles_in_one_pass(state: RendererState, row: int)
    requires
        state.wf(),
        0 <= row < ROWS,
        state.text[row].len() <= state.config.width(),
    ensures
        state.line(row) == state.text[row] + blanks(state.config.width() - state.text[row].len()),
        state.line(row).len() == state.config.width(),
        state.frame()[row] == state.line(row),
        state.after_pass().rows[row].completed,
        state.after_pass().rows[row].offset == state.rows[row].offset,
{
}

/// A row whose text does not fit always fills the display: its line is
/// exactly as wide as the display, shows the text from the row's offset on,
/// and holds blanks only where the text has run out. Each pass either moves
/// the offset forward by exactly one step, leaving the completion flag as
/// it was, or, once that step would pass the wrap limit, takes the offset
/// back to 0 and marks the row complete. Where the margin is no wider than
/// the step, a line that needed padding is the last one before the wrap.
pub proof fn law_long_row_scrolls_then_wraps(state: RendererState, row: int)
    requires
        state.wf(),
        0 <= row < ROWS,
        state.text[row].len() > state.config.width(),
    ensures
        state.line(row).len() == state.config.width(),
        state.frame()[row] == state.line(row),
        forall|k: int|
            0 <= k < state.config.width() && state.rows[row].offset + k < state.text[row].len()
                ==> state.line(row)[k] == state.text[row][state.rows[row].offset + k],
        forall|k: int|
            0 <= k < state.config.width() && state.rows[row].offset + k >= state.text[row].len()
                ==> state.line(row)[k] == ' ',
        !state.rows[row].wraps(state.text[row].len() as int, state.config) ==> {
            &&& state.after_pass().rows[row].offset == state.rows[row].offset + state.config.step()
            &&& state.after_pass().rows[row].offset > state.rows[row].offset
            &&& state.after_pass().rows[row].completed == state.rows[row].completed
        },
        state.rows[row].wraps(state.text[row].len() as int, state.config) ==> {
            &&& state.after_pass().rows[row].offset == 0
            &&& state.after_pass().rows[row].completed
        },
        state.config.margin() <= state.config.step() && state.rows[row].offset
            + state.config.width() > state.text[row].len() ==> state.rows[row].wraps(
            state.text[row].len() as int,
            state.config,
        ),
{
    let len = state.text[row].len() as int;
    assert(state.rows[row].fits(len, state.config));
}

/// In a well-formed renderer every window starts inside its text: the
/// offset of a row is less than the length of the row's text, and 0 where
/// the text is empty.
pub proof fn law_offset_stays_inside_text(state: RendererState, row: int)
    requires
        state.wf(),
        0 <= row < ROWS,
    ensures
        state.text[row].len() > 0 ==> state.rows[row].offset < state.text[row].len(),
        state.text[row].len() == 0 ==> state.rows[row].offset == 0,
        state.text[row].len() <= state.config.width() ==> state.rows[row].offset == 0,
{
    assert(state.rows[row].fits(state.text[row].len() as int, state.config));
}

/// A pass never touches the text and leaves the renderer well formed.
pub proof fn law_pass_keeps_text(state: RendererState)
    requires
        state.wf(),
    ensures
        state.after_pass().text == state.text,
        state.after_pass().config == state.config,
        state.after_pass().wf(),
{
    let next = state.after_pass();
    assert forall|i: int| 0 <= i < ROWS implies (#[trigger] next.rows[i]).fits(
        next.text[i].len() as int,
        next.config,
    ) by {
        assert(state.rows[i].fits(state.text[i].len() as int, state.config));
    }
}

/// Passes move each row by itself: after any number of them the text is
/// what it was, and each row is where that many renders of its own text
/// take it.
pub proof fn lemma_passes_move_rows_apart(state: RendererState, passes: nat, row: int)
    requires
        state.wf(),
        0 <= row < ROWS,
    ensures
        state.after_passes(passes).wf(),
        state.after_passes(passes).text == state.text,
        state.after_passes(passes).config == state.config,
        state.after_passes(passes).rows[row] == state.rows[row].after(
            passes,
            state.text[row].len() as int,
            state.config,
        ),
    decreases passes,
{
    if passes > 0 {
        law_pass_keeps_text(state);
        lemma_passes_move_rows_apart(state.after_pass(), (passes - 1) as nat, row);
    }
}

/// No row holds up new text for ever: after as many passes as the slowest
/// row takes, and after any number of passes beyond that, every row is
/// settled, so the next attempt adopts. The text has not changed meanwhile.
pub proof fn law_renderer_settles(state: RendererState, passes: nat, snapshot: Seq<Seq<char>>)
    requires
        state.wf(),
        passes >= state.passes_to_settle(),
    ensures
        state.after_passes(passes).settled(),
        state.after_passes(passes).text == state.text,
        state.after_passes(passes).after_attempt(snapshot) == state.adopting(snapshot),
{
    let end = state.after_passes(passes);
    assert forall|i: int| 0 <= i < ROWS implies (#[trigger] end.rows[i]).completed by {
        lemma_passes_move_rows_apart(state, passes, i);
        assert(state.rows[i].fits(state.text[i].len() as int, state.config));
        assert(passes >= state.row_passes_to_settle(i));
        law_row_settles(state.rows[i], passes, state.text[i].len() as int, state.config);
    }
    lemma_passes_move_rows_apart(state, passes, 0);
}

/// While any one row has not completed its pass, an attempt to adopt new
/// text changes nothing: all four rows of the working copy, and all four
/// scroll states, are what they were.
pub proof fn law_adoption_waits_for_every_row(
    state: RendererState,
    snapshot: Seq<Seq<char>>,
    row: int,
)
    requires
        state.wf(),
        0 <= row < ROWS,
        !state.rows[row].completed,
    ensures
        !state.settled(),
        state.after_attempt(snapshot) == state,
        forall|i: int| 0 <= i < ROWS ==> state.after_attempt(snapshot).text[i] == state.text[i],
{
}

/// Once every row is settled, an attempt adopts the snapshot as a whole and
/// every row starts afresh: offset 0, not completed.
pub proof fn law_adoption_resets_every_row(state: RendererState, snapshot: Seq<Seq<char>>)
    requires
        state.wf(),
        state.settled(),
        is_snapshot(snapshot),
    ensures
        state.after_attempt(snapshot).text == snapshot,
        state.after_attempt(snapshot).config == state.config,
        forall|i: int|
            0 <= i < ROWS ==> state.after_attempt(snapshot).rows[i] == RowScrollState::initial(),
        forall|i: int|
            0 <= i < ROWS ==> state.after_attempt(snapshot).rows[i].offset == 0
                && !state.after_attempt(snapshot).rows[i].completed,
        state.after_attempt(snapshot).wf(),
        !state.after_attempt(snapshot).settled(),
{
    let next = state.after_attempt(snapshot);
    assert(!next.rows[0].completed);
}

/// When all four rows fit the display, the first pass settles the
/// renderer, so the attempt that follows it adopts.
pub proof fn law_short_rows_adopt_after_one_pass(state: RendererState, snapshot: Seq<Seq<char>>)
    requires
        state.wf(),
        forall|i: int| 0 <= i < ROWS ==> state.text[i].len() <= state.config.width(),
    ensures
        state.after_pass().settled(),
        state.after_pass().after_attempt(snapshot) == state.adopting(snapshot),
{
}

/// Renders four rows of text onto a fixed-width display, scrolling the rows
/// that do not fit, and takes over new text only between full scroll cycles.
#[derive(Debug)]
pub struct ScrollRenderer {
    config: ScrollConfig,
    text: Snapshot,
    /// The length of each row of `text`, in characters.
    lens: [usize; ROWS],
    rows: [RowScrollState; ROWS],
}

impl View for ScrollRenderer {
    type V = RendererState;

    closed spec fn view(&self) -> RendererState {
        RendererState { config: self.config, text: self.text@, rows: self.rows@ }
    }
}

impl ScrollRenderer {
    #[verifier::type_invariant]
    spec fn well_formed(&self) -> bool {
        &&& self@.wf()
        &&& forall|i: int| 0 <= i < ROWS ==> self.lens[i] == (#[trigger] self.text@[i]).len()
    }

    /// A renderer with four empty rows.
    pub fn new(config: ScrollConfig) -> (renderer: ScrollRenderer)
        ensures
            renderer@ == RendererState::starting(config, blank_rows()),
            renderer@.wf(),
    {
        Self::with_text(config, Snapshot::blank())
    }

    /// A renderer that shows `text` from the start.
    pub fn with_text(config: ScrollConfig, text: Snapshot) -> (renderer: ScrollRenderer)
        ensures
            renderer@ == RendererState::starting(config, text@),
            renderer@.wf(),
    {
        let _ = config.width();
        let lens = [
            text.row(0).unicode_len(),
            text.row(1).unicode_len(),
            text.row(2).unicode_len(),
            text.row(3).unicode_len(),
        ];
        let renderer = ScrollRenderer {
            config,
            text,
            lens,
            rows: [
                RowScrollState::new(),
                RowScrollState::new(),
                RowScrollState::new(),
                RowScrollState::new(),
            ],
        };
        assert(renderer.rows@ =~= initial_rows());
        renderer
    }

    /// The geometry this renderer was made with.
    pub fn config(&self) -> (config: ScrollConfig)
        ensures
            config == self@.config,
    {
        self.config
    }

    /// The working copy of the text.
    pub fn text(&self) -> (text: &Snapshot)
        ensures
            text@ == self@.text,
    {
        &self.text
    }

    /// The scroll state of one row.
    pub fn row_state(&self, row: usize) -> (state: RowScrollState)
        requires
            row < ROWS,
        ensures
            state == self@.rows[row as int],
            self@.wf(),
    {
        proof {
            use_type_invariant(self);
        }
        self.rows[row]
    }

    /// Whether every row has completed a scroll pass since the text was adopted.
    pub fn settled(&self) -> (settled: bool)
        ensures
            settled == self@.settled(),
    {
        let settled = self.rows[0].completed && self.rows[1].completed && self.rows[2].completed
            && self.rows[3].completed;
        proof {
            assert(self@.rows[0] == self.rows[0]);
            assert(self@.rows[1] == self.rows[1]);
            assert(self@.rows[2] == self.rows[2]);
            assert(self@.rows[3] == self.rows[3]);
            if settled {
                assert forall|i: int| 0 <= i < ROWS implies (#[trigger] self@.rows[i]).completed by {
                    assert(i == 0 || i == 1 || i == 2 || i == 3);
                }
            }
        }
        settled
    }

    /// One render pass: returns the line to paint on each row and moves
    /// every row on. The text itself is not touched.
    pub fn tick(&mut self) -> (frame: Snapshot)
        ensures
            frame@ == old(self)@.frame(),
            final(self)@ == old(self)@.after_pass(),
            final(self)@.wf(),
    {
        proof {
            use_type_invariant(&*self);
        }
        let config = self.config;
        let width = config.width();
        let mut frame = Snapshot::blank();
        let mut row: usize = 0;
        while row < ROWS
            invariant
                row <= ROWS,
                self@.wf(),
                forall|i: int| 0 <= i < ROWS ==> self.lens[i] == (#[trigger] self.text@[i]).len(),
                self.config == old(self).config,
                self.config == config,
                width == config.width(),
                self.text == old(self).text,
                forall|i: int|
                    0 <= i < row ==> self.rows[i] == old(self).rows[i].advanced(
                        old(self).text@[i].len() as int,
                        config,
                    ),
                forall|i: int| 0 <= i < row ==> frame@[i] == old(self)@.line(i),
                forall|i: int| row <= i < ROWS ==> self.rows[i] == old(self).rows[i],
            decreases ROWS - row,
        {
            let text = self.text.rows[row].as_str();
            let state = self.rows[row];
            let len = self.lens[row];
            assert(len == self.text@[row as int].len());
            let line = render_measured(text, len, state.offset, width);
            let next = state.advance(len, config);
            let ghost painted = frame@;
            self.rows[row] = next;
            frame.rows[row] = line;
            assert(frame@ =~= painted.update(row as int, line@));
            row = row + 1;
        }
        assert(frame@ =~= old(self)@.frame());
        assert(self@.rows =~= old(self)@.after_pass().rows);
        frame
    }

    /// Takes over the buffer's rows if, and only if, every row is settled;
    /// says whether it did. After a takeover every row starts afresh; after
    /// a refused attempt nothing has changed.
    pub fn try_adopt(&mut self, buffer: &DisplayBuffer) -> (adopted: bool)
        ensures
            adopted == old(self)@.settled(),
            final(self)@ == old(self)@.after_attempt(buffer@),
            final(self)@.wf(),
    {
        proof {
            use_type_invariant(&*self);
        }
        if self.settled() {
            let fresh = Self::with_text(self.config, buffer.read_snapshot());
            *self = fresh;
            true
        } else {
            false
        }
    }
}

} // verus!
