//! Per-row scrolling: the geometry of the display, the scroll state of one
//! row, and the rule that moves a row's window on after each render.

use vstd::prelude::*;

verus! {

/// Display width of the reference hardware, in characters.
pub const CANONICAL_WIDTH: usize = 20;

/// Characters a scrolling row moves per render pass on the reference hardware.
pub const CANONICAL_STEP: usize = 4;

/// Trailing characters of a long row that need not be scrolled fully into
/// view before the row wraps, on the reference hardware.
pub const CANONICAL_MARGIN: usize = 4;

/// Geometry and pace of the scrolling display.
///
/// A row longer than `width` scrolls by `step` characters per pass and wraps
/// as soon as its offset would exceed `len - (width - margin)`. Every value
/// of this type is usable: rows make progress (`step > 0`) and the wrap
/// point lies inside the text (`margin < width`).
#[derive(Clone, Copy, Debug)]
pub struct ScrollConfig {
    width: usize,
    step: usize,
    margin: usize,
}

impl ScrollConfig {
    #[verifier::type_invariant]
    spec fn well_formed(self) -> bool {
        Self::usable(self.width as int, self.step as int, self.margin as int)
    }

    /// The combinations of width, step and margin that make a configuration.
    pub open spec fn usable(width: int, step: int, margin: int) -> bool {
        0 < step && 0 <= margin < width
    }

    /// Columns of the display.
    pub closed spec fn spec_width(&self) -> usize {
        self.width
    }

    /// Characters a scrolling row moves per pass.
    pub closed spec fn spec_step(&self) -> usize {
        self.step
    }

    /// Trailing characters that need not be scrolled fully into view.
    pub closed spec fn spec_margin(&self) -> usize {
        self.margin
    }

    /// What the type guarantees of every configuration held by running code.
    pub open spec fn valid(self) -> bool {
        Self::usable(self.width() as int, self.step() as int, self.margin() as int)
    }

    /// The largest offset a row of `len` characters may be rendered at.
    pub open spec fn wrap_limit(self, len: int) -> int {
        len - (self.width() - self.margin())
    }

    /// A configuration of the given geometry, if it is usable.
    pub fn new(width: usize, step: usize, margin: usize) -> (config: Option<ScrollConfig>)
        ensures
            config is Some <==> Self::usable(width as int, step as int, margin as int),
            config matches Some(c) ==> c.valid() && c.width() == width && c.step() == step
                && c.margin() == margin,
    {
        if 0 < step && margin < width {
            Some(ScrollConfig { width, step, margin })
        } else {
            None
        }
    }

    /// Twenty columns, four characters per pass, four characters of margin.
    pub fn canonical() -> (config: ScrollConfig)
        ensures
            config.valid(),
            config.width() == 20,
            config.step() == 4,
            config.margin() == 4,
    {
        ScrollConfig { width: CANONICAL_WIDTH, step: CANONICAL_STEP, margin: CANONICAL_MARGIN }
    }

    #[verifier::when_used_as_spec(spec_width)]
    pub fn width(&self) -> (width: usize)
        ensures
            width == self.spec_width(),
            self.valid(),
    {
        proof {
            use_type_invariant(self);
        }
        self.width
    }

    #[verifier::when_used_as_spec(spec_step)]
    pub fn step(&self) -> (step: usize)
        ensures
            step == self.spec_step(),
            self.valid(),
    {
        proof {
            use_type_invariant(self);
        }
        self.step
    }

    #[verifier::when_used_as_spec(spec_margin)]
    pub fn margin(&self) -> (margin: usize)
        ensures
            margin == self.spec_margin(),
            self.valid(),
    {
        proof {
            use_type_invariant(self);
        }
        self.margin
    }
}

/// Scroll position of one row and whether the row has been shown in full
/// since its text was last replaced.
#[derive(Clone, Copy, Debug, PartialEq, Eq, Structural)]
pub struct RowScrollState {
    pub offset: usize,
    pub completed: bool,
}

impl RowScrollState {
    /// The state every row starts from, and returns to when new text is adopted.
    pub open spec fn initial() -> RowScrollState {
        RowScrollState { offset: 0, completed: false }
    }

    /// The offset fits a text of `len` characters: a row that does not
    /// scroll rests at 0, a scrolling row never passes its wrap limit.
    pub open spec fn fits(self, len: int, config: ScrollConfig) -> bool {
        self.offset == 0 || (len > config.width() && self.offset <= config.wrap_limit(len))
    }

    /// Whether rendering a row of `len` characters in this state ends a
    /// scroll pass: the next offset would lie beyond the wrap limit.
    pub open spec fn wraps(self, len: int, config: ScrollConfig) -> bool {
        len > config.width() && self.offset + config.step() > config.wrap_limit(len)
    }

    /// The state of a row of `len` characters after it has been rendered once.
    pub open spec fn advanced(self, len: int, config: ScrollConfig) -> RowScrollState {
        if len <= config.width() {
            RowScrollState { offset: self.offset, completed: true }
        } else if self.wraps(len, config) {
            RowScrollState { offset: 0, completed: true }
        } else {
            RowScrollState { offset: (self.offset + config.step()) as usize, completed: self.completed }
        }
    }

    /// The state of a row of `len` characters after it has been rendered
    /// `passes` times.
    pub open spec fn after(self, passes: nat, len: int, config: ScrollConfig) -> RowScrollState
        decreases passes,
    {
        if passes == 0 {
            self
        } else {
            self.advanced(len, config).after((passes - 1) as nat, len, config)
        }
    }

    /// The number of renders after which a row of `len` characters is
    /// complete at the latest: one for a row that fits the display, else
    /// the steps that the offset can still take up to the wrap limit, and
    /// the render that wraps.
    pub open spec fn passes_to_settle(self, len: int, config: ScrollConfig) -> nat {
        if len <= config.width() || self.offset > config.wrap_limit(len) {
            1
        } else {
            ((config.wrap_limit(len) - self.offset) / (config.step() as int) + 1) as nat
        }
    }

    /// A row at offset 0 that has not completed a pass.
    pub fn new() -> (state: RowScrollState)
        ensures
            state == RowScrollState::initial(),
    {
        RowScrollState { offset: 0, completed: false }
    }

    /// Moves the row on after it has been rendered: a row that fits the
    /// display is complete at once; a longer one scrolls by `step`, or wraps
    /// to the start and is complete once the step would pass the wrap limit.
    pub fn advance(self, len: usize, config: ScrollConfig) -> (next: RowScrollState)
        ensures
            next == self.advanced(len as int, config),
            self.fits(len as int, config) ==> next.fits(len as int, config),
    {
        let width = config.width();
        let step = config.step();
        let margin = config.margin();
        if len <= width {
            RowScrollState { offset: self.offset, completed: true }
        } else {
            let limit = len - (width - margin);
            if self.offset > limit || step > limit - self.offset {
                RowScrollState { offset: 0, completed: true }
            } else {
                RowScrollState { offset: self.offset + step, completed: self.completed }
            }
        }
    }
}

/// A row whose offset fits its text starts its window inside the text,
/// unless the text is empty.
pub proof fn law_fitting_offset_is_inside_text(state: RowScrollState, len: int, config: ScrollConfig)
    requires
        config.valid(),
        state.fits(len, config),
        0 < len,
    ensures
        state.offset < len,
{
}

/// Rendering keeps a fitting offset fitting.
pub proof fn law_advancing_keeps_offset_fitting(state: RowScrollState, len: int, config: ScrollConfig)
    requires
        config.valid(),
        state.fits(len, config),
        0 <= len <= usize::MAX,
    ensures
        state.advanced(len, config).fits(len, config),
{
}

/// A row that is complete stays complete however often it is rendered.
pub proof fn lemma_completed_is_kept(
    state: RowScrollState,
    passes: nat,
    len: int,
    config: ScrollConfig,
)
    requires
        state.completed,
    ensures
        state.after(passes, len, config).completed,
    decreases passes,
{
    if passes > 0 {
        lemma_completed_is_kept(state.advanced(len, config), (passes - 1) as nat, len, config);
    }
}

/// Every row completes a scroll pass: after `passes_to_settle` renders it
/// is complete, and it stays so from then on.
pub proof fn law_row_settles(state: RowScrollState, passes: nat, len: int, config: ScrollConfig)
    requires
        config.valid(),
        state.fits(len, config),
        0 <= len <= usize::MAX,
        passes >= state.passes_to_settle(len, config),
    ensures
        state.after(passes, len, config).completed,
    decreases passes,
{
    let next = state.advanced(len, config);
    if next.completed {
        lemma_completed_is_kept(next, (passes - 1) as nat, len, config);
    } else {
        let step = config.step() as int;
        let room = config.wrap_limit(len) - state.offset;
        assert(next.offset == state.offset + step);
        assert(next.passes_to_settle(len, config) + 1 <= state.passes_to_settle(len, config)) by {
            assert(room >= step);
            assert((room - step) / step + 1 == room / step) by (nonlinear_arith)
                requires
                    room >= step,
                    step > 0,
            ;
        }
        law_row_settles(next, (passes - 1) as nat, len, config);
    }
}

} // verus!
