//! Lines of a log.
use vstd::prelude::*;
use vstd::slice::slice_subrange;
use vstd::utf8::{decode_utf8, valid_utf8};

use crate::text::{chars_of, ends_with, has_last, string_of};
use crate::words::{
    all_white, is_white, pieces, pieces_make_the_text, split_on, texts, trim, trimmed,
    trimming_takes_white_ends, Separator,
};

verus! {

/// A longer line is skipped.
pub const MAX_LINE_BYTES: usize = 65_536;

/// The byte that ends a line.
pub const NEWLINE: u8 = 10;

/// `std::str::from_utf8`. Claimed: it succeeds exactly on valid UTF-8, and gives the characters
/// that the bytes encode.
#[verifier::external_body]
fn decode(bytes: &[u8]) -> (r: Option<String>)
    ensures
        match r {
            Some(s) => valid_utf8(bytes@) && s@ == decode_utf8(bytes@),
            None => !valid_utf8(bytes@),
        },
{
    match std::str::from_utf8(bytes) {
        Ok(s) => Some(s.to_owned()),
        Err(_) => None,
    }
}

/// The pieces of a log between newlines.
pub open spec fn byte_lines(log: Seq<u8>) -> Seq<Seq<u8>>
    decreases log.len(),
{
    if log.len() == 0 {
        seq![log]
    } else {
        let before = byte_lines(log.drop_last());
        if log.last() == NEWLINE {
            before.push(Seq::<u8>::empty())
        } else {
            before.drop_last().push(before.last().push(log.last()))
        }
    }
}

/// What a line of a log in JSON holds: its text without white space around it. Lines that are too
/// long, no text or empty are skipped.
pub open spec fn line_text(line: Seq<u8>) -> Option<Seq<char>> {
    if line.len() > MAX_LINE_BYTES || !valid_utf8(line) {
        None
    } else {
        let text = trimmed(decode_utf8(line));
        if text.len() == 0 {
            None
        } else {
            Some(text)
        }
    }
}

/// The texts of the first `n` lines that are not skipped.
pub open spec fn line_texts(lines: Seq<Seq<u8>>, n: int) -> Seq<Seq<char>>
    decreases n,
{
    if n <= 0 {
        Seq::empty()
    } else {
        match line_text(lines[n - 1]) {
            Some(text) => line_texts(lines, n - 1).push(text),
            None => line_texts(lines, n - 1),
        }
    }
}

/// The texts of the lines of a log in JSON.
pub open spec fn log_texts(log: Seq<u8>) -> Seq<Seq<char>> {
    line_texts(byte_lines(log), byte_lines(log).len() as int)
}

proof fn lemma_line_texts_prefix(a: Seq<Seq<u8>>, b: Seq<Seq<u8>>, n: int)
    requires
        0 <= n <= a.len(),
        n <= b.len(),
        forall|i: int| 0 <= i < n ==> #[trigger] a[i] == b[i],
    ensures
        line_texts(a, n) == line_texts(b, n),
    decreases n,
{
    if n > 0 {
        lemma_line_texts_prefix(a, b, n - 1);
        assert(a[n - 1] == b[n - 1]);
    }
}

fn read_line(line: &[u8]) -> (r: Option<String>)
    ensures
        match line_text(line@) {
            Some(text) => r is Some && r->Some_0@ == text,
            None => r is None,
        },
{
    if line.len() > MAX_LINE_BYTES {
        return None;
    }
    match decode(line) {
        Some(s) => {
            let text = trim(s.as_str());
            if text.as_str().is_empty() {
                None
            } else {
                Some(text)
            }
        },
        None => None,
    }
}

/// The texts of the lines of a log in JSON: without white space around them, and without those
/// that are too long, no text or empty.
pub fn json_lines(log: &[u8]) -> (r: Vec<String>)
    ensures
        texts(r@) == log_texts(log@),
{
    let mut out: Vec<String> = Vec::new();
    let mut start: usize = 0;
    let mut i: usize = 0;
    assert(log@.take(0) =~= Seq::<u8>::empty());
    assert(byte_lines(log@.take(0)).last() =~= log@.subrange(0, 0));
    assert(texts(out@) =~= Seq::<Seq<char>>::empty());
    while i < log.len()
        invariant
            start <= i <= log@.len(),
            byte_lines(log@.take(i as int)).len() > 0,
            byte_lines(log@.take(i as int)).last() == log@.subrange(start as int, i as int),
            texts(out@) == line_texts(
                byte_lines(log@.take(i as int)),
                byte_lines(log@.take(i as int)).len() - 1,
            ),
        decreases log@.len() - i,
    {
        let ghost before = byte_lines(log@.take(i as int));
        let ghost after = byte_lines(log@.take(i + 1));
        let ghost done = texts(out@);
        proof {
            assert(log@.take(i + 1).drop_last() =~= log@.take(i as int));
            assert(log@.take(i + 1).last() == log@[i as int]);
        }
        if log[i] == NEWLINE {
            let line = slice_subrange(log, start, i);
            proof {
                lemma_line_texts_prefix(after, before, before.len() - 1);
                assert(after[before.len() - 1] == line@);
            }
            match read_line(line) {
                Some(text) => {
                    let ghost shown = text@;
                    out.push(text);
                    assert(texts(out@) =~= done.push(shown));
                },
                None => {},
            }
            start = i + 1;
            assert(after.last() =~= log@.subrange(start as int, i + 1));
            assert(after.len() - 1 == before.len());
        } else {
            proof {
                lemma_line_texts_prefix(after, before, before.len() - 1);
                assert(after.last() =~= log@.subrange(start as int, i + 1));
            }
        }
        i = i + 1;
    }
    proof {
        assert(log@.take(log@.len() as int) =~= log@);
    }
    let ghost done = texts(out@);
    let line = slice_subrange(log, start, log.len());
    match read_line(line) {
        Some(text) => {
            let ghost shown = text@;
            out.push(text);
            assert(texts(out@) =~= done.push(shown));
        },
        None => {},
    }
    out
}

/// A text without a carriage return at its end.
pub open spec fn without_return(s: Seq<char>) -> Seq<char> {
    if has_last(s, '\r') {
        s.drop_last()
    } else {
        s
    }
}

/// The lines of a text: what ends with a newline, without a carriage return before it, and what
/// follows the last newline where that is not empty.
pub open spec fn text_lines(text: Seq<char>) -> Seq<Seq<char>> {
    let parts = split_on(text, Separator::Char('\n'));
    let ended = Seq::new((parts.len() - 1) as nat, |i: int| without_return(parts[i]));
    if parts.last().len() > 0 {
        ended.push(parts.last())
    } else {
        ended
    }
}

/// The lines of a log in plain text. There are none to be had from a log that is no text.
pub fn plain_lines(log: &[u8]) -> (r: Option<Vec<String>>)
    ensures
        match r {
            Some(lines) => valid_utf8(log@) && texts(lines@) == text_lines(decode_utf8(log@)),
            None => !valid_utf8(log@),
        },
{
    let text = match decode(log) {
        Some(s) => s,
        None => {
            return None;
        },
    };
    let parts = pieces(text.as_str(), Separator::Char('\n'));
    let ghost views = split_on(text@, Separator::Char('\n'));
    proof {
        crate::words::lemma_split_nonempty(text@, Separator::Char('\n'));
        assert(texts(parts@).len() == parts@.len());
    }
    let ghost ended = Seq::new((views.len() - 1) as nat, |i: int| without_return(views[i]));
    let mut out: Vec<String> = Vec::new();
    let mut i: usize = 0;
    assert(texts(out@) =~= ended.take(0));
    while i < parts.len() - 1
        invariant
            i <= parts@.len() - 1,
            parts@.len() > 0,
            views == texts(parts@),
            ended == Seq::new((views.len() - 1) as nat, |i: int| without_return(views[i])),
            texts(out@) == ended.take(i as int),
        decreases parts@.len() - 1 - i,
    {
        let ghost done = texts(out@);
        let part = parts[i].as_str();
        assert(views[i as int] == part@);
        let line = if ends_with(part, '\r') {
            let chars = chars_of(part);
            let cut = string_of(&chars, 0, chars.len() - 1);
            assert(cut@ =~= part@.drop_last());
            cut
        } else {
            part.to_owned()
        };
        let ghost shown = line@;
        out.push(line);
        proof {
            assert(texts(out@) =~= done.push(shown));
            assert(ended.take(i + 1) =~= ended.take(i as int).push(shown));
        }
        i = i + 1;
    }
    assert(ended.take(ended.len() as int) =~= ended);
    let last = parts[parts.len() - 1].as_str();
    assert(views.last() == last@);
    if !last.is_empty() {
        out.push(last.to_owned());
        assert(texts(out@) =~= ended.push(last@));
    }
    Some(out)
}

/// Lines put together again, with the byte that ends a line between them.
pub open spec fn rejoined(lines: Seq<Seq<u8>>) -> Seq<u8>
    decreases lines.len(),
{
    if lines.len() == 0 {
        Seq::empty()
    } else if lines.len() == 1 {
        lines[0]
    } else {
        rejoined(lines.drop_last()).push(0x0a) + lines.last()
    }
}

/// The lines of a log, put together again, are the log, and no line holds a line break.
pub proof fn lines_make_the_log(log: Seq<u8>)
    ensures
        byte_lines(log).len() > 0,
        rejoined(byte_lines(log)) == log,
        forall|i: int, k: int|
            0 <= i < byte_lines(log).len() && 0 <= k < byte_lines(log)[i].len()
                ==> #[trigger] byte_lines(log)[i][k] != 0x0a,
    decreases log.len(),
{
    let lines = byte_lines(log);
    if log.len() > 0 {
        lines_make_the_log(log.drop_last());
        let before = byte_lines(log.drop_last());
        if log.last() == 0x0a {
            assert(lines.drop_last() =~= before);
            assert(rejoined(lines) =~= log);
            assert forall|i: int, k: int|
                0 <= i < lines.len() && 0 <= k < lines[i].len() implies #[trigger] lines[i][k]
                != 0x0a by {
                assert(before[i][k] != 0x0a);
            }
        } else {
            let grown = before.last().push(log.last());
            assert(lines == before.drop_last().push(grown));
            assert(lines.drop_last() =~= before.drop_last());
            assert(rejoined(lines) =~= rejoined(before).push(log.last()));
            assert forall|i: int, k: int|
                0 <= i < lines.len() && 0 <= k < lines[i].len() implies #[trigger] lines[i][k]
                != 0x0a by {
                if i < lines.len() - 1 || k < before.last().len() {
                    assert(before[i][k] != 0x0a);
                }
            }
        }
    }
}

/// A line is read where it is text of at most 65536 bytes that is not white all through, and what
/// is read is the text without the white space at its ends.
pub proof fn lines_are_read_without_white_ends(line: Seq<u8>)
    ensures
        line_text(line) is Some <==> line.len() <= 65_536 && valid_utf8(line) && !all_white(
            decode_utf8(line),
        ),
        line_text(line) matches Some(text) ==> {
            &&& text == trimmed(decode_utf8(line))
            &&& text.len() > 0
            &&& !is_white(text[0])
            &&& !is_white(text.last())
        },
{
    let ends = trimming_takes_white_ends(decode_utf8(line));
}

/// What the lines of a log are read as.
pub open spec fn texts_read(lines: Seq<Seq<u8>>) -> Seq<Seq<char>> {
    lines.map_values(|line: Seq<u8>| line_text(line)).filter(
        |text: Option<Seq<char>>| text is Some,
    ).map_values(|text: Option<Seq<char>>| text->Some_0)
}

/// Every line of a log that can be read is read, in order, and nothing else.
pub proof fn every_readable_line_is_read(lines: Seq<Seq<u8>>, n: int)
    requires
        0 <= n <= lines.len(),
    ensures
        line_texts(lines, n) == texts_read(lines.take(n)),
    decreases n,
{
    reveal(Seq::filter);
    let read = |line: Seq<u8>| line_text(line);
    let there = |text: Option<Seq<char>>| text is Some;
    let value = |text: Option<Seq<char>>| text->Some_0;
    let all = lines.take(n).map_values(read);
    if n > 0 {
        every_readable_line_is_read(lines, n - 1);
        let fewer = lines.take(n - 1).map_values(read);
        assert(all.drop_last() =~= fewer);
        assert(all.last() == line_text(lines[n - 1]));
        assert(line_texts(lines, n) =~= all.filter(there).map_values(value));
    } else {
        assert(line_texts(lines, n) =~= all.filter(there).map_values(value));
    }
}

/// The lines of a text are its pieces between line breaks. A carriage return before a line break
/// is no part of the line, and what follows the last line break is a line where there is any.
pub proof fn text_lines_are_pieces(text: Seq<char>, i: int)
    ensures
        ({
            let parts = split_on(text, Separator::Char('\n'));
            let lines = text_lines(text);
            &&& lines.len() == if parts.last().len() > 0 {
                parts.len() as int
            } else {
                parts.len() - 1
            }
            &&& 0 <= i < parts.len() - 1 ==> (if parts[i].len() > 0 && parts[i].last() == '\r' {
                lines[i] == parts[i].drop_last()
            } else {
                lines[i] == parts[i]
            })
            &&& parts.last().len() > 0 ==> lines.last() == parts.last()
        }),
{
    pieces_make_the_text(text, '\n');
}

} // verus!
