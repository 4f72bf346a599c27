//! Line-oriented reading of the bytes that a command printed.
//!
//! Text is modelled by its UTF-8 encoding: a line is a range of bytes, and a
//! `String` is described by the bytes that encode it.

use vstd::prelude::*;
use vstd::string::*;
use vstd::utf8::*;

verus! {

/// The line feed that ends a line.
pub const LF: u8 = 0x0a;

/// The carriage return that may stand before a line feed.
pub const CR: u8 = 0x0d;

/// Length of the longest prefix of `s` that holds no line feed.
pub open spec fn line_end(s: Seq<u8>) -> nat
    decreases s.len(),
{
    if s.len() == 0 || s[0] == LF {
        0
    } else {
        1 + line_end(s.drop_first())
    }
}

/// `l` without the carriage return at its end, if it has one.
pub open spec fn strip_cr(l: Seq<u8>) -> Seq<u8> {
    if l.len() > 0 && l.last() == CR {
        l.drop_last()
    } else {
        l
    }
}

/// The lines of `s`. A line ends at a line feed or at the end of `s`; the
/// line feed, and a carriage return directly before it, are not part of the
/// line. No line follows the last line feed of `s`.
pub open spec fn lines(s: Seq<u8>) -> Seq<Seq<u8>>
    decreases s.len(),
{
    if s.len() == 0 {
        Seq::empty()
    } else {
        let n = line_end(s) as int;
        if n >= s.len() {
            seq![s]
        } else {
            seq![strip_cr(s.take(n))] + lines(s.skip(n + 1))
        }
    }
}

/// Each of `ls` read as UTF-8.
pub open spec fn texts(ls: Seq<Seq<u8>>) -> Seq<Seq<char>> {
    Seq::new(ls.len(), |i: int| decode_utf8(ls[i]))
}

/// The first line of `s` read as UTF-8, and the empty text where `s` has no
/// line.
pub open spec fn first_line_text(s: Seq<u8>) -> Seq<char> {
    if lines(s).len() == 0 {
        Seq::empty()
    } else {
        decode_utf8(lines(s)[0])
    }
}

/// The last line of `s` read as UTF-8, if `s` has a line.
pub open spec fn last_line_text(s: Seq<u8>) -> Option<Seq<char>> {
    if lines(s).len() == 0 {
        None
    } else {
        Some(decode_utf8(lines(s).last()))
    }
}

/// `needle` stands in `hay` at offset `i`.
pub open spec fn occurs_at(needle: Seq<u8>, hay: Seq<u8>, i: int) -> bool {
    &&& 0 <= i
    &&& i + needle.len() <= hay.len()
    &&& hay.subrange(i, i + needle.len()) == needle
}

/// `needle` stands somewhere in `hay`.
pub open spec fn occurs_in(needle: Seq<u8>, hay: Seq<u8>) -> bool {
    exists|i: int| occurs_at(needle, hay, i)
}

/// `line` can stand on a line of its own: it holds no line feed and does
/// not end in a carriage return.
pub open spec fn is_line(line: Seq<u8>) -> bool {
    &&& forall|k: int| 0 <= k < line.len() ==> line[k] != LF
    &&& line.len() > 0 ==> line.last() != CR
}

/// Each of `ls` followed by a line feed, in order.
pub open spec fn listing(ls: Seq<Seq<u8>>) -> Seq<u8>
    decreases ls.len(),
{
    if ls.len() == 0 {
        Seq::empty()
    } else {
        ls[0] + seq![LF] + listing(ls.drop_first())
    }
}

/// The character that writes the digit `d`.
pub open spec fn digit(d: nat) -> char {
    if d == 0 {
        '0'
    } else if d == 1 {
        '1'
    } else if d == 2 {
        '2'
    } else if d == 3 {
        '3'
    } else if d == 4 {
        '4'
    } else if d == 5 {
        '5'
    } else if d == 6 {
        '6'
    } else if d == 7 {
        '7'
    } else if d == 8 {
        '8'
    } else {
        '9'
    }
}

/// `n` written in base ten, without sign or leading zeros.
pub open spec fn decimal_text(n: nat) -> Seq<char>
    decreases n,
{
    if n < 10 {
        seq![digit(n)]
    } else {
        decimal_text(n / 10).push(digit(n % 10))
    }
}

/// A prefix without line feed that stops at a line feed or at the end is
/// the first line's extent.
pub proof fn lemma_line_end(s: Seq<u8>, n: int)
    requires
        0 <= n <= s.len(),
        forall|k: int| 0 <= k < n ==> s[k] != LF,
        n == s.len() || s[n] == LF,
    ensures
        line_end(s) == n,
    decreases n,
{
    if n > 0 {
        let rest = s.drop_first();
        assert forall|k: int| 0 <= k < n - 1 implies rest[k] != LF by {
            assert(rest[k] == s[k + 1]);
        }
        lemma_line_end(rest, n - 1);
    }
}

/// Reading a listing line by line gives back what was listed.
pub proof fn law_lines_of_listing(ls: Seq<Seq<u8>>)
    requires
        forall|i: int| 0 <= i < ls.len() ==> is_line(#[trigger] ls[i]),
    ensures
        lines(listing(ls)) == ls,
    decreases ls.len(),
{
    if ls.len() == 0 {
        assert(lines(listing(ls)) =~= ls);
    } else {
        let first = ls[0];
        let rest = ls.drop_first();
        let all = listing(ls);
        let n = first.len() as int;
        assert(is_line(first));
        assert forall|i: int| 0 <= i < rest.len() implies is_line(#[trigger] rest[i]) by {
            assert(rest[i] == ls[i + 1]);
        }
        law_lines_of_listing(rest);
        assert(all[n] == LF);
        assert forall|k: int| 0 <= k < n implies all[k] != LF by {
            assert(all[k] == first[k]);
        }
        lemma_line_end(all, n);
        assert(all.take(n) =~= first);
        assert(all.skip(n + 1) =~= listing(rest));
        assert(strip_cr(first) == first);
        assert(lines(all) =~= seq![first] + rest);
        assert(seq![first] + rest =~= ls);
    }
}

/// A listing of texts is a text.
pub proof fn law_listing_is_utf8(ls: Seq<Seq<u8>>)
    requires
        forall|i: int| 0 <= i < ls.len() ==> valid_utf8(#[trigger] ls[i]),
    ensures
        valid_utf8(listing(ls)),
    decreases ls.len(),
{
    if ls.len() > 0 {
        let rest = ls.drop_first();
        assert forall|i: int| 0 <= i < rest.len() implies valid_utf8(#[trigger] rest[i]) by {
            assert(rest[i] == ls[i + 1]);
        }
        law_listing_is_utf8(rest);
        let feed = seq![LF];
        assert(valid_utf8(feed)) by {
            reveal_with_fuel(valid_utf8, 2);
            assert(is_leading_byte_width_1(LF)) by {
                assert(0x0au8 & 0x80 == 0) by (bit_vector);
            }
            assert(pop_first_scalar(feed) =~= Seq::<u8>::empty());
        }
        assert(valid_utf8(ls[0]));
        valid_utf8_concat(ls[0], feed);
        valid_utf8_concat(ls[0] + feed, listing(rest));
    }
}

/// In valid UTF-8 a character starts at every ASCII byte, and another one
/// starts, or the text ends, directly behind it.
pub proof fn lemma_ascii_boundaries(b: Seq<u8>, i: int)
    requires
        valid_utf8(b),
        0 <= i < b.len(),
        b[i] < 0x80,
    ensures
        is_char_boundary(b, i),
        is_char_boundary(b, i + 1),
{
    let x = b[i];
    assert(!is_continuation_byte(x)) by {
        assert(x < 0x80 ==> x & 0xc0 != 0x80) by (bit_vector);
    }
    is_char_boundary_iff_not_is_continuation_byte(b, i);
    valid_utf8_split(b, i);
    let tail = b.subrange(i, b.len() as int);
    assert(tail[0] == x);
    assert(is_leading_byte_width_1(x)) by {
        assert(x < 0x80 ==> x & 0x80 == 0) by (bit_vector);
    }
    assert(length_of_first_scalar(tail) == 1);
    let after = b.subrange(i + 1, b.len() as int);
    assert(pop_first_scalar(tail) =~= after);
    assert(valid_utf8(after));
    if i + 1 < b.len() {
        let y = after[0];
        assert(y == b[i + 1]);
        assert(valid_first_scalar(after));
        assert(!is_continuation_byte(y)) by {
            assert((y & 0x80 == 0 || y & 0xe0 == 0xc0 || y & 0xf0 == 0xe0 || y & 0xf8 == 0xf0)
                ==> y & 0xc0 != 0x80) by (bit_vector);
        }
        is_char_boundary_iff_not_is_continuation_byte(b, i + 1);
    } else {
        is_char_boundary_start_end_of_seq(b);
    }
}

/// `String::from_utf8`: the text that `bytes` encode. The standard library
/// returns the string exactly when the bytes are valid UTF-8, and the
/// string then holds the characters that they encode.
#[verifier::external_body]
pub(crate) fn from_utf8(bytes: Vec<u8>) -> (text: Option<String>)
    ensures
        text is Some <==> valid_utf8(bytes@),
        text matches Some(t) ==> t@ == decode_utf8(bytes@),
{
    match String::from_utf8(bytes) {
        Ok(t) => Some(t),
        Err(_) => None,
    }
}

/// The part of `text` from byte `from` up to byte `to`.
fn slice_text<'a>(text: &'a str, from: usize, to: usize) -> (piece: &'a str)
    requires
        from <= to <= text.spec_bytes().len(),
        is_char_boundary(text.spec_bytes(), from as int),
        is_char_boundary(text.spec_bytes(), to as int),
    ensures
        piece.spec_bytes() == text.spec_bytes().subrange(from as int, to as int),
{
    let (head, _) = text.split_at(to);
    proof {
        let b = text.spec_bytes();
        let h = head.spec_bytes();
        assert(valid_utf8(b)) by {
            encode_utf8_valid_utf8(text@);
        }
        assert(valid_utf8(h)) by {
            encode_utf8_valid_utf8(head@);
        }
        if from < to {
            is_char_boundary_iff_not_is_continuation_byte(b, from as int);
            is_char_boundary_iff_not_is_continuation_byte(h, from as int);
        } else {
            is_char_boundary_start_end_of_seq(h);
        }
    }
    let (_, piece) = head.split_at(from);
    assert(piece.spec_bytes() =~= text.spec_bytes().subrange(from as int, to as int));
    piece
}

/// Where the line that starts at `from` stops: at the next line feed, or at
/// the end of `bytes`.
fn find_line_end(bytes: &[u8], from: usize) -> (end: usize)
    requires
        from <= bytes@.len(),
    ensures
        from <= end <= bytes@.len(),
        end == from + line_end(bytes@.skip(from as int)),
        end < bytes@.len() ==> bytes@[end as int] == LF,
{
    let mut i: usize = from;
    while i < bytes.len() && bytes[i] != LF
        invariant
            from <= i <= bytes@.len(),
            forall|k: int| from <= k < i ==> bytes@[k] != LF,
        decreases bytes@.len() - i,
    {
        i = i + 1;
    }
    proof {
        lemma_line_end(bytes@.skip(from as int), i - from);
    }
    i
}

/// The lines of `text`, in order.
pub fn split_lines(text: &str) -> (out: Vec<String>)
    ensures
        out.deep_view() == texts(lines(text.spec_bytes())),
{
    let bytes = text.as_bytes();
    let mut out: Vec<String> = Vec::new();
    let mut start: usize = 0;
    let ghost mut done: Seq<Seq<u8>> = Seq::empty();
    proof {
        encode_utf8_valid_utf8(text@);
        is_char_boundary_start_end_of_seq(bytes@);
        assert(bytes@.skip(0) =~= bytes@);
    }
    while start < bytes.len()
        invariant
            bytes@ == text.spec_bytes(),
            valid_utf8(bytes@),
            start <= bytes@.len(),
            is_char_boundary(bytes@, start as int),
            is_char_boundary(bytes@, bytes@.len() as int),
            out@.len() == done.len(),
            forall|i: int| 0 <= i < done.len() ==> encode_utf8(#[trigger] out@[i]@) == done[i],
            lines(bytes@) == done + lines(bytes@.skip(start as int)),
        decreases bytes@.len() - start,
    {
        let ghost rest = bytes@.skip(start as int);
        let end = find_line_end(bytes, start);
        if end == bytes.len() {
            let line = slice_text(text, start, end);
            proof {
                assert(line.spec_bytes() =~= rest);
                assert(lines(rest) =~= seq![rest]);
                assert(lines(bytes@.skip(end as int)) =~= Seq::<Seq<u8>>::empty());
                done = done.push(rest);
            }
            out.push(line.to_owned());
            start = end;
        } else {
            let stop = if end > start && bytes[end - 1] == CR {
                end - 1
            } else {
                end
            };
            proof {
                lemma_ascii_boundaries(bytes@, end as int);
                if stop < end {
                    lemma_ascii_boundaries(bytes@, stop as int);
                }
            }
            let line = slice_text(text, start, stop);
            proof {
                let n = end - start;
                assert(rest.take(n) =~= bytes@.subrange(start as int, end as int));
                assert(line.spec_bytes() =~= strip_cr(rest.take(n)));
                assert(rest.skip(n + 1) =~= bytes@.skip(end + 1));
                assert(lines(rest) =~= seq![strip_cr(rest.take(n))] + lines(rest.skip(n + 1)));
                done = done.push(strip_cr(rest.take(n)));
            }
            out.push(line.to_owned());
            start = end + 1;
        }
    }
    proof {
        assert(lines(bytes@.skip(start as int)) =~= Seq::<Seq<u8>>::empty());
        assert(lines(bytes@) =~= done);
        assert forall|i: int| 0 <= i < out@.len() implies out@[i]@ == decode_utf8(done[i]) by {
            encode_utf8_decode_utf8(out@[i]@);
        }
        assert(out.deep_view() =~= texts(lines(text.spec_bytes())));
    }
    out
}

/// The first line of `text`, without its line ending, and the empty text
/// where `text` is empty.
pub fn first_line(text: &str) -> (line: String)
    ensures
        line@ == first_line_text(text.spec_bytes()),
{
    let bytes = text.as_bytes();
    proof {
        encode_utf8_valid_utf8(text@);
        is_char_boundary_start_end_of_seq(bytes@);
        assert(bytes@.skip(0) =~= bytes@);
    }
    if bytes.len() == 0 {
        return String::new();
    }
    let end = find_line_end(bytes, 0);
    let stop = if end < bytes.len() && end > 0 && bytes[end - 1] == CR {
        end - 1
    } else {
        end
    };
    proof {
        if end < bytes.len() {
            lemma_ascii_boundaries(bytes@, end as int);
        }
        if stop < end {
            lemma_ascii_boundaries(bytes@, stop as int);
        }
    }
    let line = slice_text(text, 0, stop);
    proof {
        if end < bytes.len() {
            assert(bytes@.take(end as int) =~= bytes@.subrange(0, end as int));
            assert(line.spec_bytes() =~= strip_cr(bytes@.take(end as int)));
        } else {
            assert(line.spec_bytes() =~= bytes@);
        }
        assert(line.spec_bytes() == lines(bytes@)[0]);
        encode_utf8_decode_utf8(line@);
    }
    line.to_owned()
}

/// The last line of `text`, if it has one.
pub fn last_line(text: &str) -> (line: Option<String>)
    ensures
        match line {
            Some(l) => last_line_text(text.spec_bytes()) == Some(l@),
            None => last_line_text(text.spec_bytes()) is None,
        },
{
    let mut all = split_lines(text);
    let ghost before = all.deep_view();
    let line = all.pop();
    proof {
        if before.len() > 0 {
            assert(line->0@ == before.last());
        }
    }
    line
}

/// Whether `needle` stands in `hay` at offset `at`.
fn matches_at(hay: &[u8], needle: &[u8], at: usize) -> (same: bool)
    requires
        at + needle@.len() <= hay@.len(),
    ensures
        same == occurs_at(needle@, hay@, at as int),
{
    let size: usize = hay.len();
    let mut k: usize = 0;
    while k < needle.len()
        invariant
            size == hay@.len(),
            at + needle@.len() <= hay@.len(),
            k <= needle@.len(),
            forall|j: int| 0 <= j < k ==> hay@[at + j] == needle@[j],
        decreases needle@.len() - k,
    {
        if hay[at + k] != needle[k] {
            proof {
                let part = hay@.subrange(at as int, at + needle@.len());
                assert(part[k as int] == hay@[at + k]);
            }
            return false;
        }
        k = k + 1;
    }
    assert(hay@.subrange(at as int, at + needle@.len()) =~= needle@);
    true
}

/// Whether `needle` stands somewhere in `hay`.
pub fn contains(hay: &[u8], needle: &[u8]) -> (found: bool)
    ensures
        found == occurs_in(needle@, hay@),
{
    if needle.len() > hay.len() {
        return false;
    }
    let last: usize = hay.len() - needle.len();
    let mut i: usize = 0;
    while !matches_at(hay, needle, i)
        invariant
            last == hay@.len() - needle@.len(),
            i <= last,
            forall|k: int| 0 <= k < i ==> !occurs_at(needle@, hay@, k),
        decreases last - i,
    {
        if i == last {
            return false;
        }
        i = i + 1;
    }
    true
}

/// The one-character text that writes the digit `d`.
fn digit_text(d: usize) -> (text: &'static str)
    requires
        d < 10,
    ensures
        text@ == seq![digit(d as nat)],
{
    proof {
        reveal_strlit("0");
        reveal_strlit("1");
        reveal_strlit("2");
        reveal_strlit("3");
        reveal_strlit("4");
        reveal_strlit("5");
        reveal_strlit("6");
        reveal_strlit("7");
        reveal_strlit("8");
        reveal_strlit("9");
    }
    let text = if d == 0 {
        "0"
    } else if d == 1 {
        "1"
    } else if d == 2 {
        "2"
    } else if d == 3 {
        "3"
    } else if d == 4 {
        "4"
    } else if d == 5 {
        "5"
    } else if d == 6 {
        "6"
    } else if d == 7 {
        "7"
    } else if d == 8 {
        "8"
    } else {
        "9"
    };
    assert(text@ =~= seq![digit(d as nat)]);
    text
}

/// `n` written in base ten.
pub fn decimal(n: usize) -> (text: String)
    ensures
        text@ == decimal_text(n as nat),
{
    let mut text = String::from_str(digit_text(n % 10));
    let mut rest: usize = n / 10;
    assert(rest > 0 ==> decimal_text(n as nat) =~= decimal_text(rest as nat) + text@);
    while rest > 0
        invariant
            rest > 0 ==> decimal_text(n as nat) == decimal_text(rest as nat) + text@,
            rest == 0 ==> decimal_text(n as nat) == text@,
        decreases rest,
    {
        let head = String::from_str(digit_text(rest % 10));
        let ghost tail = text@;
        text = head.concat(text.as_str());
        proof {
            let d = seq![digit((rest % 10) as nat)];
            if rest >= 10 {
                assert(decimal_text(rest as nat) =~= decimal_text((rest / 10) as nat) + d);
                assert(decimal_text(n as nat) =~= decimal_text((rest / 10) as nat) + (d + tail));
            } else {
                assert(decimal_text(rest as nat) =~= d);
            }
        }
        rest = rest / 10;
    }
    text
}

} // verus!
