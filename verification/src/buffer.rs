//! The hand-off point between the producer of display text and the
//! renderer: a buffer that always holds one complete four-row snapshot.

use vstd::prelude::*;

verus! {

/// Rows of the display.
pub const ROWS: usize = 4;

/// A complete set of display text: one line per row, of any length.
#[derive(Debug)]
pub struct Snapshot {
    pub rows: [String; ROWS],
}

impl View for Snapshot {
    type V = Seq<Seq<char>>;

    open spec fn view(&self) -> Seq<Seq<char>> {
        Seq::new(ROWS as nat, |i: int| self.rows[i]@)
    }
}

/// The values that a snapshot can take: four rows, each of a length that a
/// machine can hold.
pub open spec fn is_snapshot(rows: Seq<Seq<char>>) -> bool {
    &&& rows.len() == ROWS
    &&& forall|i: int| 0 <= i < ROWS ==> (#[trigger] rows[i]).len() <= usize::MAX
}

/// Four empty rows.
pub open spec fn blank_rows() -> Seq<Seq<char>> {
    Seq::new(ROWS as nat, |i: int| Seq::<char>::empty())
}

impl Snapshot {
    /// The snapshot of a display that has nothing to show.
    pub fn blank() -> (snapshot: Snapshot)
        ensures
            snapshot@ == blank_rows(),
    {
        let snapshot = Snapshot { rows: [String::new(), String::new(), String::new(), String::new()] };
        assert(snapshot@ =~= blank_rows());
        snapshot
    }

    /// The text of one row.
    pub fn row(&self, index: usize) -> (text: &str)
        requires
            index < ROWS,
        ensures
            text@ == self@[index as int],
    {
        self.rows[index].as_str()
    }
}

impl Clone for Snapshot {
    fn clone(&self) -> (copy: Snapshot)
        ensures
            copy@ == self@,
    {
        let copy = Snapshot {
            rows: [
                self.rows[0].clone(),
                self.rows[1].clone(),
                self.rows[2].clone(),
                self.rows[3].clone(),
            ],
        };
        assert(copy@ =~= self@);
        copy
    }
}

/// What a buffer holds once `rows` have been published into it, whatever it
/// held `before`.
pub open spec fn published(before: Seq<Seq<char>>, rows: Seq<Seq<char>>) -> Seq<Seq<char>> {
    rows
}

/// A read returns four rows, and they are the rows of the latest
/// publication alone: none of them stems from an earlier one.
pub proof fn law_read_sees_latest_publication(
    before: Seq<Seq<char>>,
    earlier: Snapshot,
    latest: Snapshot,
)
    ensures
        published(before, latest@).len() == ROWS,
        published(published(before, earlier@), latest@) == latest@,
        forall|i: int|
            0 <= i < ROWS ==> published(published(before, earlier@), latest@)[i]
                == latest.rows[i]@,
{
}

/// The shared display text. It is created blank and from then on replaced
/// only as a whole, so a reader sees the rows of one publication, never a
/// mixture of two.
#[derive(Debug)]
pub struct DisplayBuffer {
    current: Snapshot,
}

impl View for DisplayBuffer {
    type V = Seq<Seq<char>>;

    closed spec fn view(&self) -> Seq<Seq<char>> {
        self.current@
    }
}

impl DisplayBuffer {
    /// A buffer of four empty rows.
    pub fn new() -> (buffer: DisplayBuffer)
        ensures
            buffer@ == blank_rows(),
    {
        DisplayBuffer { current: Snapshot::blank() }
    }

    /// Replaces all four rows at once.
    pub fn publish(&mut self, rows: Snapshot)
        ensures
            final(self)@ == published(old(self)@, rows@),
    {
        self.current = rows;
    }

    /// A copy of the rows last published, or of the blank rows the buffer
    /// was created with.
    pub fn read_snapshot(&self) -> (rows: Snapshot)
        ensures
            rows@ == self@,
            rows@.len() == ROWS,
    {
        self.current.clone()
    }
}

} // verus!
