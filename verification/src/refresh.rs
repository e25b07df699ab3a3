//! The producer's side of the hand-off: turning fetched text into a
//! four-row snapshot, and the snapshot that stands in when a fetch fails.

use vstd::prelude::*;
use vstd::utf8::{decode_utf8, encode_utf8_decode_utf8, valid_utf8};
use vstd::string::StringSliceAdditionalSpecFns;
use crate::buffer::{blank_rows, published, DisplayBuffer, Snapshot, ROWS};
use crate::number::{decimal, push_decimal};
use crate::trusted::utf8_text;

verus! {

/// The line break that separates rows in fetched text.
pub const LINE_BREAK: char = '\n';

/// Index of the first line break in `s`, or the length of `s` if it has none.
pub open spec fn first_break(s: Seq<char>) -> int
    decreases s.len(),
{
    if s.len() == 0 || s[0] == LINE_BREAK {
        0
    } else {
        1 + first_break(s.drop_first())
    }
}

/// The lines of `s`: the pieces between its line breaks, in order. A text
/// without a break is one line; a break at the very end is followed by an
/// empty line.
pub open spec fn split_lines(s: Seq<char>) -> Seq<Seq<char>>
    decreases s.len(),
{
    let end = first_break(s);
    if 0 <= end < s.len() {
        seq![s.subrange(0, end)] + split_lines(s.subrange(end + 1, s.len() as int))
    } else {
        seq![s]
    }
}

/// The lines put together again, with one line break between neighbours.
pub open spec fn join_lines(lines: Seq<Seq<char>>) -> Seq<char>
    decreases lines.len(),
{
    if lines.len() == 0 {
        Seq::empty()
    } else if lines.len() == 1 {
        lines[0]
    } else {
        lines[0] + seq![LINE_BREAK] + join_lines(lines.drop_first())
    }
}

/// The four rows that `text` stands for: its first four lines, followed by
/// empty rows if it has fewer. Lines beyond the fourth are dropped.
pub open spec fn rows_of_text(text: Seq<char>) -> Seq<Seq<char>> {
    Seq::new(
        ROWS as nat,
        |i: int|
            if i < split_lines(text).len() {
                split_lines(text)[i]
            } else {
                Seq::empty()
            },
    )
}

/// The message shown when no text could be fetched.
pub open spec fn fallback_rows() -> Seq<Seq<char>> {
    blank_rows().update(0, "Could not fetch updates."@)
}

/// `first_break` is the position of the first line break.
pub proof fn lemma_first_break(s: Seq<char>)
    ensures
        0 <= first_break(s) <= s.len(),
        forall|j: int| 0 <= j < first_break(s) ==> s[j] != LINE_BREAK,
        first_break(s) < s.len() ==> s[first_break(s)] == LINE_BREAK,
    decreases s.len(),
{
    if s.len() == 0 || s[0] == LINE_BREAK {
    } else {
        let rest = s.drop_first();
        lemma_first_break(rest);
        assert forall|j: int| 0 <= j < first_break(s) implies s[j] != LINE_BREAK by {
            if j > 0 {
                assert(s[j] == rest[j - 1]);
            }
        }
        if first_break(s) < s.len() {
            assert(s[first_break(s)] == rest[first_break(rest)]);
        }
    }
}

/// A position with a line break, or the end of the text, that no line
/// break precedes is what `first_break` returns.
pub proof fn lemma_first_break_is(s: Seq<char>, at: int)
    requires
        0 <= at <= s.len(),
        forall|j: int| 0 <= j < at ==> s[j] != LINE_BREAK,
        at < s.len() ==> s[at] == LINE_BREAK,
    ensures
        first_break(s) == at,
{
    lemma_first_break(s);
}

/// No line holds a line break, and the lines joined by line breaks are the
/// text again: the text is split at every break and nowhere else.
pub proof fn law_lines_partition_text(s: Seq<char>)
    ensures
        split_lines(s).len() >= 1,
        forall|i: int, j: int|
            0 <= i < split_lines(s).len() && 0 <= j < split_lines(s)[i].len() ==> split_lines(
                s,
            )[i][j] != LINE_BREAK,
        join_lines(split_lines(s)) == s,
    decreases s.len(),
{
    lemma_first_break(s);
    let end = first_break(s);
    if 0 <= end < s.len() {
        let head = s.subrange(0, end);
        let rest = s.subrange(end + 1, s.len() as int);
        law_lines_partition_text(rest);
        let lines = split_lines(s);
        assert(lines == seq![head] + split_lines(rest));
        assert(lines.drop_first() =~= split_lines(rest));
        assert forall|i: int, j: int| 0 <= i < lines.len() && 0 <= j < lines[i].len() implies lines[i][j]
            != LINE_BREAK by {
            if i == 0 {
                assert(lines[0][j] == s[j]);
            } else {
                assert(lines[i] == split_lines(rest)[i - 1]);
            }
        }
        assert(join_lines(lines) == head + seq![LINE_BREAK] + join_lines(split_lines(rest)));
        assert(head + seq![LINE_BREAK] + rest =~= s);
    } else {
        assert(split_lines(s) == seq![s]);
    }
}

/// Fetched text always yields exactly four rows.
pub proof fn law_text_yields_four_rows(text: Seq<char>)
    ensures
        rows_of_text(text).len() == ROWS,
        forall|i: int|
            0 <= i < ROWS && i < split_lines(text).len() ==> rows_of_text(text)[i] == split_lines(
                text,
            )[i],
        forall|i: int|
            0 <= i < ROWS && i >= split_lines(text).len() ==> rows_of_text(text)[i]
                == Seq::<char>::empty(),
{
}

impl Snapshot {
    /// Splits `text` at its line breaks into the four rows of a snapshot:
    /// missing rows are empty, lines beyond the fourth are dropped.
    pub fn from_text(text: &str) -> (snapshot: Snapshot)
        ensures
            snapshot@ == rows_of_text(text@),
    {
        let len = text.unicode_len();
        let mut snapshot = Snapshot::blank();
        let mut row: usize = 0;
        let mut start: usize = 0;
        let mut pos: usize = 0;
        proof {
            assert(text@.skip(0) =~= text@);
            assert(snapshot@.take(0) + split_lines(text@) =~= split_lines(text@));
            assert(snapshot@.take(0) =~= split_lines(text@).take(0));
        }
        for c in it: text.chars()
            invariant
                it.seq() == text@,
                pos == it.index(),
                len == text@.len(),
                row <= ROWS,
                start <= pos,
                row < ROWS ==> split_lines(text@) == snapshot@.take(row as int) + split_lines(
                    text@.skip(start as int),
                ),
                row < ROWS ==> forall|j: int| start <= j < pos ==> text@[j] != LINE_BREAK,
                row <= split_lines(text@).len(),
                snapshot@.take(row as int) == split_lines(text@).take(row as int),
                snapshot@.skip(row as int) == blank_rows().skip(row as int),
        {
            if c == LINE_BREAK && row < ROWS {
                let line = String::from_str(text.substring_char(start, pos));
                let ghost before = snapshot@;
                proof {
                    let rest = text@.skip(start as int);
                    let tail = text@.skip(pos + 1);
                    lemma_first_break_is(rest, pos - start);
                    assert(rest.subrange(0, pos - start) =~= line@);
                    assert(rest.subrange(pos - start + 1, rest.len() as int) =~= tail);
                    assert(split_lines(rest) == seq![line@] + split_lines(tail));
                    assert(before.take(row as int) + (seq![line@] + split_lines(tail))
                        =~= before.take(row as int).push(line@) + split_lines(tail));
                    assert(split_lines(text@) == before.take(row as int).push(line@) + split_lines(
                        tail,
                    ));
                    assert(split_lines(text@)[row as int] == line@);
                }
                snapshot.rows[row] = line;
                assert(snapshot@ =~= before.update(row as int, line@));
                assert(snapshot@.take(row + 1) =~= before.take(row as int).push(line@));
                assert(snapshot@.take(row + 1) =~= split_lines(text@).take(row + 1));
                proof {
                    let rest = snapshot@.skip(row + 1);
                    let blank = blank_rows().skip(row + 1);
                    assert forall|i: int| 0 <= i < rest.len() implies #[trigger] rest[i]
                        == blank[i] by {
                        assert(snapshot@[row + 1 + i] == before.skip(row as int)[i + 1]);
                    }
                    assert(rest =~= blank);
                }
                row = row + 1;
                start = pos + 1;
            }
            pos = pos + 1;
        }
        if row < ROWS {
            let line = String::from_str(text.substring_char(start, len));
            proof {
                let rest = text@.skip(start as int);
                lemma_first_break_is(rest, rest.len() as int);
                assert(rest =~= line@);
                assert(split_lines(text@) =~= snapshot@.take(row as int).push(line@));
            }
            let ghost before = snapshot@;
            snapshot.rows[row] = line;
            assert(snapshot@ =~= before.update(row as int, line@));
            assert forall|i: int| 0 <= i < ROWS implies snapshot@[i] == rows_of_text(text@)[i] by {
                if i < row {
                    assert(snapshot@[i] == before.take(row as int)[i]);
                } else if i > row {
                    assert(snapshot@[i] == before.skip(row as int)[i - row]);
                }
            }
        } else {
            assert forall|i: int| 0 <= i < ROWS implies snapshot@[i] == rows_of_text(text@)[i] by {
                assert(snapshot@[i] == snapshot@.take(row as int)[i]);
            }
        }
        assert(snapshot@ =~= rows_of_text(text@));
        snapshot
    }

    /// The snapshot published when a fetch has failed.
    pub fn fallback() -> (snapshot: Snapshot)
        ensures
            snapshot@ == fallback_rows(),
    {
        let snapshot = Snapshot {
            rows: [
                String::from_str("Could not fetch updates."),
                String::new(),
                String::new(),
                String::new(),
            ],
        };
        assert(snapshot@ =~= fallback_rows());
        snapshot
    }
}

/// Why a response of the proxy yields no text.
#[derive(Clone, Copy, Debug, PartialEq, Eq, Structural)]
pub enum FetchError {
    /// The proxy answered with a status outside 200 to 299.
    Status(u16),
    /// The body of the response is not valid UTF-8.
    Encoding,
}

/// The statuses with which the proxy hands out text.
pub open spec fn is_success(status: u16) -> bool {
    200 <= status <= 299
}

/// What a response of the proxy yields: the text of its body where the
/// status is a success and the body is valid UTF-8, else the reason why not.
pub open spec fn response_outcome(status: u16, body: Seq<u8>) -> Result<Seq<char>, FetchError> {
    if !is_success(status) {
        Err(FetchError::Status(status))
    } else if !valid_utf8(body) {
        Err(FetchError::Encoding)
    } else {
        Ok(decode_utf8(body))
    }
}

/// The text that a response of the proxy carries, or why it carries none.
pub fn response_text(status: u16, body: &[u8]) -> (outcome: Result<String, FetchError>)
    ensures
        match outcome {
            Ok(text) => response_outcome(status, body@) == Ok::<Seq<char>, FetchError>(text@),
            Err(error) => response_outcome(status, body@) == Err::<Seq<char>, FetchError>(error),
        },
{
    if status < 200 || status > 299 {
        return Err(FetchError::Status(status));
    }
    match utf8_text(body) {
        Some(text) => {
            proof {
                encode_utf8_decode_utf8(text@);
            }
            Ok(String::from_str(text))
        },
        None => Err(FetchError::Encoding),
    }
}

impl FetchError {
    /// The error in words.
    pub open spec fn message_text(self) -> Seq<char> {
        match self {
            FetchError::Status(status) => "Got non-200 status: "@ + decimal(status as nat),
            FetchError::Encoding => "Could not decode proxy response"@,
        }
    }

    /// The error in words.
    pub fn message(&self) -> (text: String)
        ensures
            text@ == self.message_text(),
    {
        match self {
            FetchError::Status(status) => {
                let mut text = String::from_str("Got non-200 status: ");
                push_decimal(&mut text, *status as u128);
                text
            },
            FetchError::Encoding => String::from_str("Could not decode proxy response"),
        }
    }
}

/// What the producer publishes for the outcome of a fetch: the rows of the
/// fetched text, or the fallback rows when the fetch failed.
pub open spec fn rows_for<E>(outcome: Result<String, E>) -> Seq<Seq<char>> {
    match outcome {
        Ok(text) => rows_of_text(text@),
        Err(_) => fallback_rows(),
    }
}

/// Publishes the outcome of one fetch into the buffer, as a whole.
pub fn refresh<E>(buffer: &mut DisplayBuffer, outcome: &Result<String, E>)
    ensures
        final(buffer)@ == published(old(buffer)@, rows_for(*outcome)),
        final(buffer)@ == rows_for(*outcome),
        final(buffer)@.len() == ROWS,
{
    let rows = match outcome {
        Ok(text) => Snapshot::from_text(text.as_str()),
        Err(_) => Snapshot::fallback(),
    };
    buffer.publish(rows);
}

} // verus!
