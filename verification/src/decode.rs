//! Tolerant text decoding.
//!
//! Each read of the trace channel yields one raw byte buffer. A buffer is
//! decoded strictly when it is valid UTF-8; otherwise a lossy decoding
//! substitutes replacement markers and the caller owes one warning for that
//! buffer. The decoded text is then split into lines, terminators stripped,
//! in arrival order. Buffers are not line- or codepoint-aligned, so an
//! invalid tail is an expected condition, never a failure.

use vstd::prelude::*;
use vstd::string::StrSliceExecFns;
use vstd::utf8::{decode_utf8, encode_utf8, valid_utf8};

verus! {

/// What `String::from_utf8_lossy` returns on the given bytes. The
/// replacement algorithm is not spelled out here; the trusted wrapper below
/// states the facts callers rely on.
pub uninterp spec fn lossy_utf8(bytes: Seq<u8>) -> Seq<char>;

/// Relies on `std::str::from_utf8`: it succeeds exactly on valid UTF-8 and
/// then yields the decoded character sequence.
#[verifier::external_body]
fn decode_strict(bytes: &[u8]) -> (r: Option<String>)
    ensures
        r is Some <==> valid_utf8(bytes@),
        r matches Some(s) ==> s@ == decode_utf8(bytes@),
{
    match std::str::from_utf8(bytes) {
        Ok(s) => Some(s.to_string()),
        Err(_) => None,
    }
}

/// Relies on `String::from_utf8_lossy`: invalid sequences are replaced with
/// U+FFFD, so an invalid buffer yields at least one replacement marker, and
/// valid UTF-8 comes back decoded unchanged.
#[verifier::external_body]
fn decode_lossy(bytes: &[u8]) -> (r: String)
    ensures
        r@ == lossy_utf8(bytes@),
        valid_utf8(bytes@) ==> r@ == decode_utf8(bytes@),
        !valid_utf8(bytes@) ==> r@.contains('\u{fffd}'),
{
    String::from_utf8_lossy(bytes).to_string()
}

/// The text one buffer decodes to: exact for valid UTF-8, lossy otherwise.
pub open spec fn decoded_text(bytes: Seq<u8>) -> Seq<char> {
    if valid_utf8(bytes) {
        decode_utf8(bytes)
    } else {
        lossy_utf8(bytes)
    }
}

/// Decode one raw buffer. Strict decoding is attempted first; on failure the
/// lossy decoding is substituted, and the flag reports that this buffer owes
/// exactly one warning.
pub fn decode_buffer(bytes: &[u8]) -> (r: (String, bool))
    ensures
        r.0@ == decoded_text(bytes@),
        r.1 == !valid_utf8(bytes@),
        !valid_utf8(bytes@) ==> r.0@.contains('\u{fffd}'),
{
    match decode_strict(bytes) {
        Some(text) => (text, false),
        None => (decode_lossy(bytes), true),
    }
}

/// Index of the first newline in `s`, or `s.len()` when there is none.
pub open spec fn first_nl(s: Seq<char>) -> int
    decreases s.len(),
{
    if s.len() == 0 {
        0
    } else if s[0] == '\n' {
        0
    } else {
        1 + first_nl(s.drop_first())
    }
}

/// `first_nl` points at the first newline, or at the end when there is none.
pub proof fn lemma_first_nl(s: Seq<char>)
    ensures
        0 <= first_nl(s) <= s.len(),
        first_nl(s) < s.len() ==> s[first_nl(s)] == '\n',
        forall|j: int| 0 <= j < first_nl(s) ==> s[j] != '\n',
    decreases s.len(),
{
    if s.len() == 0 {
    } else if s[0] == '\n' {
    } else {
        lemma_first_nl(s.drop_first());
        assert forall|j: int| 0 <= j < first_nl(s) implies s[j] != '\n' by {
            if j >= 1 {
                assert(s[j] == s.drop_first()[j - 1]);
            }
        }
    }
}

/// A line with its terminator stripped: a carriage return directly before
/// the newline goes with it.
pub open spec fn strip_cr(line: Seq<char>) -> Seq<char> {
    if line.len() > 0 && line.last() == '\r' {
        line.drop_last()
    } else {
        line
    }
}

/// The lines of `s`: split at each newline, terminators (`\n` or `\r\n`)
/// stripped, and no empty line after a final newline.
pub open spec fn lines_of(s: Seq<char>) -> Seq<Seq<char>>
    decreases s.len(),
    via lines_of_decreases
{
    if s.len() == 0 {
        seq![]
    } else {
        let i = first_nl(s);
        if i == s.len() {
            seq![s]
        } else {
            seq![strip_cr(s.subrange(0, i))] + lines_of(s.subrange(i + 1, s.len() as int))
        }
    }
}

#[via_fn]
proof fn lines_of_decreases(s: Seq<char>) {
    lemma_first_nl(s);
}

/// Split decoded text into lines in arrival order, stripping terminators.
pub fn split_lines(text: &str) -> (lines: Vec<String>)
    ensures
        lines.deep_view() == lines_of(text@),
{
    let n = text.unicode_len();
    let mut lines: Vec<String> = Vec::new();
    let mut start: usize = 0;
    proof {
        assert(text@.subrange(0, n as int) =~= text@);
        assert(lines.deep_view() + lines_of(text@) =~= lines_of(text@));
    }
    while start < n
        invariant
            n == text@.len(),
            start <= n,
            lines.deep_view() + lines_of(text@.subrange(start as int, n as int)) == lines_of(
                text@,
            ),
        decreases n - start,
    {
        let ghost rest = text@.subrange(start as int, n as int);
        let ghost old_lines = lines.deep_view();
        let mut j = start;
        while j < n && text.get_char(j) != '\n'
            invariant
                n == text@.len(),
                start <= j <= n,
                forall|k: int| start <= k < j ==> text@[k] != '\n',
            decreases n - j,
        {
            j += 1;
        }
        proof {
            lemma_first_nl(rest);
            assert forall|k: int| 0 <= k < j - start implies rest[k] != '\n' by {
                assert(rest[k] == text@[start + k]);
            }
            if j < n {
                assert(rest[j - start] == text@[j as int]);
            }
            assert(first_nl(rest) == j - start) by {
                if first_nl(rest) < j - start {
                    assert(rest[first_nl(rest)] == '\n');
                }
                if first_nl(rest) > j - start {
                    assert(rest[j - start] != '\n');
                }
            }
        }
        if j == n {
            let line = text.substring_char(start, n).to_owned();
            proof {
                assert(rest =~= text@.subrange(start as int, n as int));
                assert(lines_of(rest) == seq![rest]);
            }
            lines.push(line);
            start = n;
            proof {
                assert(lines.deep_view() =~= old_lines.push(rest));
                assert(text@.subrange(n as int, n as int) =~= Seq::<char>::empty());
                assert(lines.deep_view() + lines_of(Seq::<char>::empty()) =~= old_lines + seq![
                    rest,
                ]);
                assert(old_lines + seq![rest] =~= old_lines + lines_of(rest));
            }
        } else {
            let mut end = j;
            if j > start && text.get_char(j - 1) == '\r' {
                end = j - 1;
            }
            let line = text.substring_char(start, end).to_owned();
            proof {
                let head = rest.subrange(0, j - start);
                assert(head =~= text@.subrange(start as int, j as int));
                assert(strip_cr(head) =~= text@.subrange(start as int, end as int)) by {
                    if j > start {
                        assert(head.last() == text@[j - 1]);
                        if text@[j - 1] == '\r' {
                            assert(head.drop_last() =~= text@.subrange(
                                start as int,
                                j - 1,
                            ));
                        }
                    }
                }
                assert(line@ == strip_cr(head));
                assert(rest.subrange(j - start + 1, rest.len() as int) =~= text@.subrange(
                    j + 1,
                    n as int,
                ));
                assert(lines_of(rest) == seq![strip_cr(head)] + lines_of(
                    text@.subrange(j + 1, n as int),
                ));
            }
            lines.push(line);
            start = j + 1;
            proof {
                assert(lines.deep_view() =~= old_lines.push(line@));
                assert(lines.deep_view() + lines_of(text@.subrange(start as int, n as int))
                    =~= old_lines + lines_of(rest));
            }
        }
    }
    proof {
        assert(text@.subrange(start as int, n as int) =~= Seq::<char>::empty());
        assert(lines.deep_view() + lines_of(Seq::<char>::empty()) =~= lines.deep_view());
    }
    lines
}

/// Decode one buffer and split it into lines: the decoded-and-split step the
/// poller runs for every read that returned data. The flag reports whether
/// the buffer owes a decode warning.
pub fn decode_buffer_lines(bytes: &[u8]) -> (r: (Vec<String>, bool))
    ensures
        r.0.deep_view() == lines_of(decoded_text(bytes@)),
        r.1 == !valid_utf8(bytes@),
{
    let (text, warn) = decode_buffer(bytes);
    let lines = split_lines(text.as_str());
    (lines, warn)
}

/// Lossless-decode law: a buffer holding the exact UTF-8 encoding of some
/// text decodes back to that text, so its line sequence is reproduced with
/// no loss.
pub proof fn lemma_valid_buffer_round_trip(text: Seq<char>)
    ensures
        valid_utf8(encode_utf8(text)),
        decoded_text(encode_utf8(text)) == text,
        lines_of(decoded_text(encode_utf8(text))) == lines_of(text),
{
    vstd::utf8::encode_utf8_valid_utf8(text);
    vstd::utf8::encode_utf8_decode_utf8(text);
}

} // verus!
