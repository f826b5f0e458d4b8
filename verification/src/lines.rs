//! Decoding a byte stream into candidate lines. The stream splits at each
//! newline byte, a single carriage return before the split is dropped, and
//! every raw line decodes to text exactly when it is valid UTF-8; a line
//! that is not costs one step of the consecutive-error budget downstream.

use vstd::prelude::*;
use vstd::utf8::decode_utf8;
use vstd::utf8::valid_utf8;

verus! {

/// Position of the first newline byte, or the length when there is none.
pub open spec fn first_nl(data: Seq<u8>) -> int
    decreases data.len(),
{
    if data.len() == 0 {
        0
    } else if data[0] == 10u8 {
        0
    } else {
        1 + first_nl(data.drop_first())
    }
}

/// `first_nl` points at the first newline: nothing before it is one, and it
/// is one itself unless it is the end.
pub proof fn lemma_first_nl(data: Seq<u8>)
    ensures
        0 <= first_nl(data) <= data.len(),
        forall|j: int| 0 <= j < first_nl(data) ==> data[j] != 10u8,
        first_nl(data) < data.len() ==> data[first_nl(data)] == 10u8,
    decreases data.len(),
{
    if data.len() == 0 {
    } else if data[0] == 10u8 {
    } else {
        lemma_first_nl(data.drop_first());
        assert forall|j: int| 0 <= j < first_nl(data) implies data[j] != 10u8 by {
            if j > 0 {
                assert(data.drop_first()[j - 1] != 10u8);
            }
        }
    }
}

/// One raw line with a single trailing carriage return removed.
pub open spec fn strip_cr(line: Seq<u8>) -> Seq<u8> {
    if line.len() > 0 && line.last() == 13u8 {
        line.drop_last()
    } else {
        line
    }
}

/// The raw lines of a byte stream: split at each newline byte, the newline
/// dropped, a carriage return before it dropped too; a final fragment with
/// no newline is a line of its own, and an empty stream has no lines.
pub open spec fn split_lines_spec(data: Seq<u8>) -> Seq<Seq<u8>>
    decreases data.len(),
    via split_lines_spec_decreases
{
    if data.len() == 0 {
        seq![]
    } else {
        let i = first_nl(data);
        if i >= data.len() {
            seq![strip_cr(data)]
        } else {
            seq![strip_cr(data.take(i))] + split_lines_spec(data.skip(i + 1))
        }
    }
}

#[via_fn]
proof fn split_lines_spec_decreases(data: Seq<u8>) {
    lemma_first_nl(data);
}

/// A raw line's decoding: its text when it is valid UTF-8, nothing when not.
pub open spec fn decoded_line_spec(line: Seq<u8>) -> Option<Seq<char>> {
    if valid_utf8(line) {
        Some(decode_utf8(line))
    } else {
        None
    }
}

/// The whole decoded line stream of a byte stream.
pub open spec fn decoded_lines_spec(data: Seq<u8>) -> Seq<Option<Seq<char>>> {
    split_lines_spec(data).map_values(|line: Seq<u8>| decoded_line_spec(line))
}

/// The ghost text of one decoded-or-failed line.
pub open spec fn line_view(line: Option<String>) -> Option<Seq<char>> {
    match line {
        Some(s) => Some(s@),
        None => None,
    }
}

/// Relies on `str::from_utf8`: it accepts exactly the valid UTF-8 byte
/// sequences and decodes them as vstd's `decode_utf8` describes.
#[verifier::external_body]
fn decode_line_bytes(line: &Vec<u8>) -> (r: Option<String>)
    ensures
        r is Some <==> valid_utf8(line@),
        r matches Some(s) ==> s@ == decode_utf8(line@),
{
    match std::str::from_utf8(line.as_slice()) {
        Ok(s) => Some(s.to_string()),
        Err(_) => None,
    }
}

/// Splits a byte stream into its raw lines.
fn split_lines(data: &Vec<u8>) -> (r: Vec<Vec<u8>>)
    ensures
        r@.map_values(|line: Vec<u8>| line@) == split_lines_spec(data@),
{
    let n = data.len();
    let mut out: Vec<Vec<u8>> = Vec::new();
    let mut cur: Vec<u8> = Vec::new();
    let ghost mut start: int = 0;
    proof {
        assert(data@.skip(0) =~= data@);
        assert(out@.map_values(|line: Vec<u8>| line@) =~= Seq::<Seq<u8>>::empty());
    }
    for i in 0..n
        invariant
            n == data@.len(),
            0 <= start <= i <= n,
            cur@ == data@.subrange(start, i as int),
            forall|j: int| start <= j < i ==> data@[j] != 10u8,
            split_lines_spec(data@) == out@.map_values(|line: Vec<u8>| line@)
                + split_lines_spec(data@.skip(start)),
    {
        if data[i] == 10 {
            let ghost sub = data@.subrange(start, i as int);
            proof {
                let rest = data@.skip(start);
                lemma_first_nl(rest);
                assert(rest[i - start] == 10u8);
                assert forall|j: int| 0 <= j < i - start implies rest[j] != 10u8 by {
                    assert(rest[j] == data@[start + j]);
                }
                if first_nl(rest) < i - start {
                    assert(rest[first_nl(rest)] != 10u8);
                }
                if first_nl(rest) > i - start {
                    assert(rest[i - start] != 10u8);
                }
                assert(first_nl(rest) == i - start);
                assert(rest.take(i - start) =~= sub);
                assert(rest.skip(i - start + 1) =~= data@.skip(i + 1));
                assert(split_lines_spec(rest)
                    == seq![strip_cr(sub)] + split_lines_spec(data@.skip(i + 1)));
            }
            if cur.len() > 0 && cur[cur.len() - 1] == 13 {
                cur.pop();
                assert(cur@ =~= strip_cr(sub));
            }
            assert(cur@ == strip_cr(sub));
            let ghost oldmap = out@.map_values(|line: Vec<u8>| line@);
            out.push(cur);
            cur = Vec::new();
            proof {
                assert(out@.map_values(|line: Vec<u8>| line@) =~= oldmap.push(strip_cr(sub)));
                assert(oldmap.push(strip_cr(sub)) =~= oldmap + seq![strip_cr(sub)]);
                assert(oldmap + (seq![strip_cr(sub)] + split_lines_spec(data@.skip(i + 1)))
                    =~= (oldmap + seq![strip_cr(sub)]) + split_lines_spec(data@.skip(i + 1)));
                start = i + 1;
                assert(cur@ =~= data@.subrange(start, i + 1));
            }
        } else {
            cur.push(data[i]);
            assert(cur@ =~= data@.subrange(start, i + 1));
        }
    }
    if cur.len() > 0 {
        let ghost rest = data@.skip(start);
        proof {
            lemma_first_nl(rest);
            assert forall|j: int| 0 <= j < rest.len() implies rest[j] != 10u8 by {
                assert(rest[j] == data@[start + j]);
            }
            if first_nl(rest) < rest.len() {
                assert(rest[first_nl(rest)] != 10u8);
            }
            assert(first_nl(rest) == rest.len());
            assert(rest.len() > 0);
            assert(split_lines_spec(rest) == seq![strip_cr(rest)]);
        }
        if cur.len() > 0 && cur[cur.len() - 1] == 13 {
            cur.pop();
            assert(cur@ =~= strip_cr(rest));
        }
        assert(cur@ == strip_cr(rest));
        let ghost oldmap = out@.map_values(|line: Vec<u8>| line@);
        out.push(cur);
        proof {
            assert(out@.map_values(|line: Vec<u8>| line@) =~= oldmap.push(strip_cr(rest)));
            assert(oldmap.push(strip_cr(rest)) =~= oldmap + seq![strip_cr(rest)]);
        }
    } else {
        proof {
            assert(data@.skip(start) =~= Seq::<u8>::empty());
            assert(out@.map_values(|line: Vec<u8>| line@)
                + split_lines_spec(data@.skip(start))
                =~= out@.map_values(|line: Vec<u8>| line@));
        }
    }
    assert(out@.map_values(|line: Vec<u8>| line@) =~= split_lines_spec(data@));
    out
}

/// Decodes a byte stream into its line outcomes: the text of each line that
/// is valid UTF-8, and a marker for each line that is not.
pub fn decode_lines(data: &Vec<u8>) -> (r: Vec<Option<String>>)
    ensures
        r@.map_values(|line: Option<String>| line_view(line)) == decoded_lines_spec(data@),
{
    let raw = split_lines(data);
    let mut out: Vec<Option<String>> = Vec::new();
    let n = raw.len();
    for i in 0..n
        invariant
            n == raw@.len(),
            raw@.map_values(|line: Vec<u8>| line@) == split_lines_spec(data@),
            out@.len() == i,
            forall|j: int| 0 <= j < i
                ==> line_view(#[trigger] out@[j]) == decoded_line_spec(raw@[j]@),
    {
        out.push(decode_line_bytes(&raw[i]));
    }
    assert forall|j: int| 0 <= j < out@.len()
        implies line_view(#[trigger] out@[j]) == decoded_lines_spec(data@)[j] by {
        assert(raw@[j]@ == raw@.map_values(|line: Vec<u8>| line@)[j]);
    }
    assert(out@.map_values(|line: Option<String>| line_view(line)) =~= decoded_lines_spec(data@));
    out
}

} // verus!
