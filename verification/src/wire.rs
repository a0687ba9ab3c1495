//! A response as it stands on the wire, and the law that reading it gives back what was
//! written.

use vstd::prelude::*;
use vstd::utf8::{decode_utf8, valid_utf8};
use crate::response::{
    all_digits, all_fields, blank_line, crlf, decimal_value, field_separator, header_map,
    is_whitespace, lines_of, parse_response, run_end, space, status_code, status_token,
    unsigned_digits, ParseError, ResponseView,
};
use crate::scan::{contains, first_at, lemma_first_at, occurs_at, split_once};

verus! {

/// A header as bytes: its name and its value.
pub type Field = (Seq<u8>, Seq<u8>);

/// The decimal digits that write `n`, without leading zeros.
pub open spec fn decimal(n: nat) -> Seq<u8>
    decreases n,
{
    if n < 10 {
        seq![(48 + n) as u8]
    } else {
        decimal(n / 10).push((48 + n % 10) as u8)
    }
}

/// The status line: the version, the status code and the reason, parted by single spaces.
pub open spec fn status_line(version: Seq<u8>, status: u16, reason: Seq<u8>) -> Seq<u8> {
    version + space() + decimal(status as nat) + space() + reason
}

/// A header line, without its line ending: the name, a colon, a space, the value.
pub open spec fn field_line(field: Field) -> Seq<u8> {
    field.0 + field_separator() + field.1
}

/// The lines of the headers `fields`.
pub open spec fn field_lines(fields: Seq<Field>) -> Seq<Seq<u8>> {
    Seq::new(fields.len(), |i: int| field_line(fields[i]))
}

/// Lines joined by CR LF; nothing for no lines.
pub open spec fn join_lines(lines: Seq<Seq<u8>>) -> Seq<u8>
    decreases lines.len(),
{
    if lines.len() == 0 {
        Seq::empty()
    } else if lines.len() == 1 {
        lines[0]
    } else {
        lines[0] + crlf() + join_lines(lines.drop_first())
    }
}

/// The mapping that headers stand for as text, a later header winning over an earlier one of
/// the same name.
pub open spec fn fields_map(fields: Seq<Field>) -> Map<Seq<char>, Seq<char>>
    decreases fields.len(),
{
    if fields.len() == 0 {
        Map::empty()
    } else {
        fields_map(fields.drop_last()).insert(
            decode_utf8(fields.last().0),
            decode_utf8(fields.last().1),
        )
    }
}

/// A response on the wire: the status line, the header lines, a blank line, the body.
pub open spec fn response_bytes(
    version: Seq<u8>,
    status: u16,
    reason: Seq<u8>,
    fields: Seq<Field>,
    body: Seq<u8>,
) -> Seq<u8> {
    status_line(version, status, reason) + crlf() + join_lines(field_lines(fields))
        + blank_line() + body
}

/// A pattern of one byte, or of two different bytes, that does not stand in `head` stands in
/// `head + pat + tail` first where `head` ends.
pub proof fn lemma_cut_after(head: Seq<u8>, pat: Seq<u8>, tail: Seq<u8>)
    requires
        1 <= pat.len() <= 2,
        pat.len() == 2 ==> pat[0] != pat[1],
        !contains(head, pat),
    ensures
        first_at(head + pat + tail, pat, head.len() as int),
        split_once(head + pat + tail, pat) == Some((head, tail)),
{
    let all = head + pat + tail;
    let at = head.len() as int;
    assert(all.subrange(at, at + pat.len()) =~= pat);
    assert forall|j: int| 0 <= j < at implies !occurs_at(all, pat, j) by {
        if occurs_at(all, pat, j) {
            let found = all.subrange(j, j + pat.len());
            if j + pat.len() <= at {
                assert(head.subrange(j, j + pat.len()) =~= found);
                assert(occurs_at(head, pat, j));
            } else {
                assert(found[0] == all[j]);
                assert(found[1] == all[j + 1]);
                assert(all[j + 1] == pat[0]);
            }
        }
    }
    lemma_first_at(all, pat, at);
    assert(all.subrange(0, at) =~= head);
    assert(all.subrange(at + pat.len(), all.len() as int) =~= tail);
}

/// The digits of a number are digits, at least one of them, and write that number.
pub proof fn lemma_decimal(n: nat)
    ensures
        decimal(n).len() > 0,
        all_digits(decimal(n)),
        decimal_value(decimal(n)) == n,
    decreases n,
{
    if n >= 10 {
        lemma_decimal(n / 10);
        let digits = decimal(n);
        assert(digits.drop_last() =~= decimal(n / 10));
        assert(digits.last() == (48 + n % 10) as u8);
    } else {
        let digits = decimal(n);
        assert(digits.drop_last() =~= Seq::<u8>::empty());
        assert(decimal_value(digits.drop_last()) == 0);
    }
}

/// The digits of a status code read as that status code.
pub proof fn lemma_status_code(status: u16)
    ensures
        status_code(decimal(status as nat)) == Some(status),
{
    let digits = decimal(status as nat);
    lemma_decimal(status as nat);
    assert(digits[0] != 43);
    assert(unsigned_digits(digits) == digits);
}

/// No byte of `bytes` is whitespace.
pub open spec fn no_whitespace(bytes: Seq<u8>) -> bool {
    forall|k: int| 0 <= k < bytes.len() ==> !is_whitespace(#[trigger] bytes[k])
}

/// A run ends where its bytes end: before the first byte of the other kind, or with the
/// bytes.
pub proof fn lemma_run_end(bytes: Seq<u8>, from: int, to: int, blank: bool)
    requires
        0 <= from <= to <= bytes.len(),
        forall|k: int| from <= k < to ==> is_whitespace(#[trigger] bytes[k]) == blank,
        to == bytes.len() || is_whitespace(bytes[to]) != blank,
    ensures
        run_end(bytes, from, blank) == to,
    decreases to - from,
{
    if from < to {
        assert(is_whitespace(bytes[from]) == blank);
        lemma_run_end(bytes, from + 1, to, blank);
    }
}

/// The second token of a status line is the digits of its status code.
pub proof fn lemma_status_token(version: Seq<u8>, status: u16, reason: Seq<u8>)
    requires
        version.len() > 0,
        no_whitespace(version),
    ensures
        status_token(status_line(version, status, reason)) == Some(decimal(status as nat)),
{
    let digits = decimal(status as nat);
    let line = status_line(version, status, reason);
    let first = version.len() as int;
    let second = first + 1;
    let end = second + digits.len();
    lemma_decimal(status as nat);
    assert(line =~= version + space() + digits + space() + reason);
    assert(space()[0] == 32);
    assert forall|k: int| 0 <= k < first implies !is_whitespace(#[trigger] line[k]) by {
        assert(line[k] == version[k]);
    }
    assert(line[first] == 32);
    assert forall|k: int| second <= k < end implies !is_whitespace(#[trigger] line[k]) by {
        assert(line[k] == digits[k - second]);
    }
    assert(line[end] == 32);
    lemma_run_end(line, 0, 0, true);
    lemma_run_end(line, 0, first, false);
    lemma_run_end(line, first, second, true);
    lemma_run_end(line, second, end, false);
    assert(line.subrange(second, end) =~= digits);
}

/// Every line holds no line ending.
pub open spec fn no_line_endings(lines: Seq<Seq<u8>>) -> bool {
    forall|i: int| 0 <= i < lines.len() ==> !contains(#[trigger] lines[i], crlf())
}

/// Lines that hold no line ending are read back from their joining.
pub proof fn lemma_lines_of_join(lines: Seq<Seq<u8>>)
    requires
        lines.len() > 0,
        no_line_endings(lines),
    ensures
        lines_of(join_lines(lines)) == lines,
    decreases lines.len(),
{
    if lines.len() == 1 {
        assert(split_once(lines[0], crlf()) is None);
        assert(lines_of(lines[0]) =~= lines);
    } else {
        let rest = lines.drop_first();
        assert(no_line_endings(rest)) by {
            assert forall|i: int| 0 <= i < rest.len() implies !contains(
                #[trigger] rest[i],
                crlf(),
            ) by {
                assert(rest[i] == lines[i + 1]);
            }
        }
        lemma_lines_of_join(rest);
        assert(join_lines(lines) =~= lines[0] + crlf() + join_lines(rest));
        lemma_cut_after(lines[0], crlf(), join_lines(rest));
        assert(lines_of(join_lines(lines)) =~= seq![lines[0]] + lines_of(join_lines(rest)));
        assert(seq![lines[0]] + rest =~= lines);
    }
}

/// A line ending stands at `at` where CR and LF stand there.
proof fn lemma_ending_at(bytes: Seq<u8>, at: int)
    ensures
        occurs_at(bytes, crlf(), at) <==> 0 <= at && at + 2 <= bytes.len() && bytes[at] == 13
            && bytes[at + 1] == 10,
{
    if 0 <= at && at + 2 <= bytes.len() {
        let found = bytes.subrange(at, at + 2);
        assert(found[0] == bytes[at]);
        assert(found[1] == bytes[at + 1]);
        assert(crlf()[0] == 13 && crlf()[1] == 10);
        if bytes[at] == 13 && bytes[at + 1] == 10 {
            assert(found =~= crlf());
        }
    }
}

/// A blank line stands at `at` where two line endings stand there, one behind the other.
proof fn lemma_blank_at(bytes: Seq<u8>, at: int)
    ensures
        occurs_at(bytes, blank_line(), at) <==> occurs_at(bytes, crlf(), at) && occurs_at(
            bytes,
            crlf(),
            at + 2,
        ),
{
    lemma_ending_at(bytes, at);
    lemma_ending_at(bytes, at + 2);
    if 0 <= at && at + 4 <= bytes.len() {
        let found = bytes.subrange(at, at + 4);
        assert(found[0] == bytes[at]);
        assert(found[1] == bytes[at + 1]);
        assert(found[2] == bytes[at + 2]);
        assert(found[3] == bytes[at + 3]);
        assert(blank_line()[0] == 13 && blank_line()[1] == 10 && blank_line()[2] == 13
            && blank_line()[3] == 10);
        if bytes[at] == 13 && bytes[at + 1] == 10 && bytes[at + 2] == 13 && bytes[at + 3]
            == 10 {
            assert(found =~= blank_line());
        }
    }
}

/// No line ending starts inside `row` in `row + next`, `row` holding none and `next`
/// starting with CR.
proof fn lemma_no_ending_in_row(row: Seq<u8>, next: Seq<u8>, at: int)
    requires
        !contains(row, crlf()),
        next.len() > 0,
        next[0] == 13,
        0 <= at < row.len(),
    ensures
        !occurs_at(row + next, crlf(), at),
{
    let all = row + next;
    lemma_ending_at(all, at);
    lemma_ending_at(row, at);
    if at + 2 <= row.len() {
        assert(all[at] == row[at]);
        assert(all[at + 1] == row[at + 1]);
        assert(!occurs_at(row, crlf(), at));
    } else {
        assert(all[at + 1] == next[0]);
    }
}

/// A pattern that stands in the second of two joined parts stands in the whole.
proof fn lemma_occurs_behind(head: Seq<u8>, rest: Seq<u8>, pat: Seq<u8>, at: int)
    requires
        at >= head.len(),
    ensures
        occurs_at(head + rest, pat, at) <==> occurs_at(rest, pat, at - head.len()),
{
    let all = head + rest;
    let skip = head.len() as int;
    if 0 <= at - skip && at + pat.len() <= all.len() {
        assert(all.subrange(at, at + pat.len()) =~= rest.subrange(
            at - skip,
            at - skip + pat.len(),
        ));
    }
}

/// Behind rows that hold no line ending and of which only the first may be empty, the blank
/// line stands first where the rows end.
pub proof fn lemma_blank_line_after(rows: Seq<Seq<u8>>, tail: Seq<u8>)
    requires
        rows.len() > 0,
        no_line_endings(rows),
        forall|i: int| 1 <= i < rows.len() ==> (#[trigger] rows[i]).len() > 0,
    ensures
        first_at(
            join_lines(rows) + blank_line() + tail,
            blank_line(),
            join_lines(rows).len() as int,
        ),
    decreases rows.len(),
{
    let head = join_lines(rows);
    let all = head + blank_line() + tail;
    let end = head.len() as int;
    let first = rows[0];
    assert(all.subrange(end, end + 4) =~= blank_line());
    assert(blank_line()[0] == 13);
    if rows.len() == 1 {
        assert(all =~= first + (blank_line() + tail));
        assert forall|j: int| 0 <= j < end implies !occurs_at(all, blank_line(), j) by {
            lemma_blank_at(all, j);
            lemma_no_ending_in_row(first, blank_line() + tail, j);
        }
    } else {
        let rest = rows.drop_first();
        let inner = join_lines(rest) + blank_line() + tail;
        let next = rest[0];
        assert(next == rows[1]);
        assert(no_line_endings(rest)) by {
            assert forall|i: int| 0 <= i < rest.len() implies !contains(
                #[trigger] rest[i],
                crlf(),
            ) by {
                assert(rest[i] == rows[i + 1]);
            }
        }
        assert forall|i: int| 1 <= i < rest.len() implies (#[trigger] rest[i]).len() > 0 by {
            assert(rest[i] == rows[i + 1]);
        }
        lemma_blank_line_after(rest, tail);
        assert(head =~= first + crlf() + join_lines(rest));
        assert(all =~= first + (crlf() + inner));
        assert(all =~= (first + crlf()) + inner);
        assert(crlf()[0] == 13 && crlf()[1] == 10);
        let behind = if rest.len() == 1 {
            blank_line() + tail
        } else {
            crlf() + join_lines(rest.drop_first()) + blank_line() + tail
        };
        assert(inner =~= next + behind);
        assert(behind[0] == 13);
        assert forall|j: int| 0 <= j < end implies !occurs_at(all, blank_line(), j) by {
            lemma_blank_at(all, j);
            if j < first.len() {
                lemma_no_ending_in_row(first, crlf() + inner, j);
            } else if j == first.len() {
                lemma_occurs_behind(first + crlf(), inner, crlf(), j + 2);
                lemma_no_ending_in_row(next, behind, 0);
            } else if j == first.len() + 1 {
                lemma_ending_at(all, j);
                assert(all[j] == (crlf() + inner)[1]);
            } else {
                lemma_occurs_behind(first + crlf(), inner, blank_line(), j);
                assert(!occurs_at(inner, blank_line(), j - (first.len() + 2)));
            }
        }
    }
}

/// The lines of headers are read back as those headers.
pub proof fn lemma_fields_read_back(fields: Seq<Field>)
    requires
        forall|i: int| 0 <= i < fields.len() ==> !contains(
            (#[trigger] fields[i]).0,
            field_separator(),
        ),
    ensures
        all_fields(field_lines(fields)),
        header_map(field_lines(fields)) == fields_map(fields),
    decreases fields.len(),
{
    let lines = field_lines(fields);
    assert forall|k: int| 0 <= k < lines.len() implies (#[trigger] split_once(
        lines[k],
        field_separator(),
    )) == Some(fields[k]) by {
        lemma_cut_after(fields[k].0, field_separator(), fields[k].1);
    }
    if fields.len() > 0 {
        let front = fields.drop_last();
        assert forall|i: int| 0 <= i < front.len() implies !contains(
            (#[trigger] front[i]).0,
            field_separator(),
        ) by {
            assert(front[i] == fields[i]);
        }
        lemma_fields_read_back(front);
        assert(lines.drop_last() =~= field_lines(front));
        assert(split_once(lines.last(), field_separator()) == Some(fields.last())) by {
            assert(lines.last() == lines[lines.len() - 1]);
        }
    }
}

/// Reading gives back what was written: a response on the wire, with at least one header,
/// is read as its status code, its headers and its body.
///
/// What is asked of the parts is what keeps the tokens and the lines apart: the version is
/// not empty and holds no whitespace, the status line and the header lines hold no line
/// ending, and no header name holds a colon followed by a space.
pub proof fn lemma_parse_round_trip(
    version: Seq<u8>,
    status: u16,
    reason: Seq<u8>,
    fields: Seq<Field>,
    body: Seq<u8>,
)
    requires
        valid_utf8(response_bytes(version, status, reason, fields, body)),
        version.len() > 0,
        no_whitespace(version),
        !contains(status_line(version, status, reason), crlf()),
        fields.len() > 0,
        no_line_endings(field_lines(fields)),
        forall|i: int| 0 <= i < fields.len() ==> !contains(
            (#[trigger] fields[i]).0,
            field_separator(),
        ),
    ensures
        parse_response(response_bytes(version, status, reason, fields, body)) == Ok::<
            ResponseView,
            ParseError,
        >(ResponseView { status, headers: fields_map(fields), body: decode_utf8(body) }),
{
    let first = status_line(version, status, reason);
    let lines = field_lines(fields);
    let block = join_lines(lines);
    let head = first + crlf() + block;
    let all = response_bytes(version, status, reason, fields, body);
    let rows = seq![first] + lines;
    assert(rows.drop_first() =~= lines);
    assert(join_lines(rows) =~= head);
    assert(no_line_endings(rows)) by {
        assert forall|i: int| 0 <= i < rows.len() implies !contains(#[trigger] rows[i], crlf()) by {
            if i > 0 {
                assert(rows[i] == lines[i - 1]);
            }
        }
    }
    assert forall|i: int| 1 <= i < rows.len() implies (#[trigger] rows[i]).len() > 0 by {
        assert(rows[i] == lines[i - 1]);
        assert(lines[i - 1] == field_line(fields[i - 1]));
    }
    lemma_blank_line_after(rows, body);
    assert(all =~= head + blank_line() + body);
    lemma_first_at(all, blank_line(), head.len() as int);
    assert(all.subrange(0, head.len() as int) =~= head);
    assert(all.subrange(head.len() as int + 4, all.len() as int) =~= body);
    assert(split_once(all, blank_line()) == Some((head, body)));
    lemma_cut_after(first, crlf(), block);
    lemma_status_token(version, status, reason);
    lemma_status_code(status);
    lemma_lines_of_join(lines);
    lemma_fields_read_back(fields);
}

} // verus!
