//! The encoder for params: ordered name/value pairs written in the
//! `application/x-www-form-urlencoded` syntax, for a query string or a form
//! body.

use vstd::prelude::*;
use vstd::string::*;
use vstd::utf8::*;
use crate::trusted::form_urlencode;

verus! {

/// A param is a name and a value.
pub type Param<'a> = (&'a str, &'a str);

/// Params are kept in the order they were given; a name may occur twice.
pub type Params<'a> = Vec<Param<'a>>;

/// A name/value pair as text.
pub type Pair = (Seq<char>, Seq<char>);

/// The params as pairs of text.
pub open spec fn pairs_of(params: Seq<(&str, &str)>) -> Seq<Pair> {
    params.map_values(|p: (&str, &str)| (p.0@, p.1@))
}

/// The bytes that the encoding leaves as they are: `*`, `-`, `.`, `_`,
/// ASCII digits and ASCII letters.
pub open spec fn is_unreserved(b: u8) -> bool {
    b == 0x2A || b == 0x2D || b == 0x2E || b == 0x5F || (0x30 <= b && b <= 0x39) || (0x41 <= b
        && b <= 0x5A) || (0x61 <= b && b <= 0x7A)
}

/// The upper-case hexadecimal digit for a value below sixteen.
pub open spec fn hex_digit(n: int) -> char {
    if n < 10 {
        ((0x30 + n) as u8) as char
    } else {
        ((0x41 + n - 10) as u8) as char
    }
}

/// One byte in encoded form.
pub open spec fn encode_byte(b: u8) -> Seq<char> {
    if is_unreserved(b) {
        seq![b as char]
    } else if b == 0x20 {
        seq!['+']
    } else {
        seq!['%', hex_digit(b as int / 16), hex_digit(b as int % 16)]
    }
}

/// A byte string in encoded form: its bytes encoded one by one.
pub open spec fn form_encode(bytes: Seq<u8>) -> Seq<char>
    decreases bytes.len(),
{
    if bytes.len() == 0 {
        Seq::empty()
    } else {
        encode_byte(bytes[0]) + form_encode(bytes.skip(1))
    }
}

/// A text in encoded form: the encoding of its UTF-8 bytes.
pub open spec fn encode_text(text: Seq<char>) -> Seq<char> {
    form_encode(encode_utf8(text))
}

/// One pair in encoded form: `<name>=<value>`.
pub open spec fn encode_pair(pair: Pair) -> Seq<char> {
    encode_text(pair.0) + seq!['='] + encode_text(pair.1)
}

/// The pairs in encoded form, in their order, joined by `&`.
pub open spec fn encode_pairs(pairs: Seq<Pair>) -> Seq<char>
    decreases pairs.len(),
{
    if pairs.len() == 0 {
        Seq::empty()
    } else if pairs.len() == 1 {
        encode_pair(pairs[0])
    } else {
        encode_pairs(pairs.drop_last()) + seq!['&'] + encode_pair(pairs.last())
    }
}

/// Encodes the params for a query string or a form body: each name and
/// value percent-encoded, `=` between them, `&` between the pairs.
pub fn encode_params(params: &Vec<Param>) -> (out: String)
    ensures
        out@ == encode_pairs(pairs_of(params@)),
{
    let mut out = String::new();
    let mut i: usize = 0;
    while i < params.len()
        invariant
            i <= params.len(),
            out@ == encode_pairs(pairs_of(params@).take(i as int)),
        decreases params.len() - i,
    {
        if i > 0 {
            out.append("&");
        }
        let name = form_urlencode(params[i].0);
        let value = form_urlencode(params[i].1);
        out.append(name.as_str());
        out.append("=");
        out.append(value.as_str());
        proof {
            reveal_strlit("&");
            reveal_strlit("=");
            let pairs = pairs_of(params@);
            let next = pairs.take(i + 1);
            assert(next.drop_last() == pairs.take(i as int));
            assert(next.last() == (params@[i as int].0@, params@[i as int].1@));
            assert("&"@ == seq!['&']);
            assert("="@ == seq!['=']);
        }
        i += 1;
    }
    proof {
        assert(pairs_of(params@).take(i as int) == pairs_of(params@));
    }
    out
}

/// The characters that an encoded text is made of: the unreserved ones,
/// `+` and `%`. Neither `&` nor `=` nor `?` is among them.
pub open spec fn is_form_char(c: char) -> bool {
    let n = c as u32;
    n == 0x2A || n == 0x2D || n == 0x2E || n == 0x5F || (0x30 <= n && n <= 0x39) || (0x41 <= n
        && n <= 0x5A) || (0x61 <= n && n <= 0x7A) || n == 0x2B || n == 0x25
}

/// Whether `c` does not occur in `text`.
pub open spec fn lacks(text: Seq<char>, c: char) -> bool {
    forall|i: int| 0 <= i < text.len() ==> text[i] != c
}

/// The value of a hexadecimal digit, in either case.
pub open spec fn hex_value(c: char) -> Option<int> {
    let n = c as u32 as int;
    if 0x30 <= n && n <= 0x39 {
        Some(n - 0x30)
    } else if 0x41 <= n && n <= 0x46 {
        Some(n - 0x41 + 10)
    } else if 0x61 <= n && n <= 0x66 {
        Some(n - 0x61 + 10)
    } else {
        None
    }
}

/// The bytes that an encoded text stands for: `+` is a space, `%` with two
/// hexadecimal digits is the byte they spell, any other character stands for
/// its own UTF-8 bytes.
pub open spec fn form_decode(text: Seq<char>) -> Seq<u8>
    decreases text.len(),
{
    if text.len() == 0 {
        Seq::empty()
    } else if text[0] == '+' {
        seq![0x20u8] + form_decode(text.skip(1))
    } else if text[0] == '%' && text.len() >= 3 && hex_value(text[1]) is Some && hex_value(
        text[2],
    ) is Some {
        seq![(hex_value(text[1])->0 * 16 + hex_value(text[2])->0) as u8] + form_decode(
            text.skip(3),
        )
    } else {
        encode_utf8(seq![text[0]]) + form_decode(text.skip(1))
    }
}

/// The text that an encoded text stands for.
pub open spec fn decode_text(text: Seq<char>) -> Seq<char> {
    decode_utf8(form_decode(text))
}

/// The first position of `c` in `text`, or the length of `text` where `c`
/// does not occur.
pub open spec fn first_position(text: Seq<char>, c: char) -> int
    decreases text.len(),
{
    if text.len() == 0 || text[0] == c {
        0
    } else {
        1 + first_position(text.skip(1), c)
    }
}

/// The position after the last `c` in `text`, or 0 where `c` does not occur.
pub open spec fn after_last(text: Seq<char>, c: char) -> int
    decreases text.len(),
{
    if text.len() == 0 || text.last() == c {
        text.len() as int
    } else {
        after_last(text.drop_last(), c)
    }
}

/// The pair that one segment stands for: name and value are parted at the
/// first `=`; without one the segment is a name with an empty value.
pub open spec fn decode_pair(segment: Seq<char>) -> Pair {
    let at = first_position(segment, '=');
    if 0 <= at < segment.len() {
        (decode_text(segment.take(at)), decode_text(segment.skip(at + 1)))
    } else {
        (decode_text(segment), Seq::empty())
    }
}

/// The pairs that a segment adds: none where it is empty.
pub open spec fn decode_segment(segment: Seq<char>) -> Seq<Pair> {
    if segment.len() == 0 {
        Seq::empty()
    } else {
        seq![decode_pair(segment)]
    }
}

/// The pairs that an encoded text stands for, in their order: the text is
/// cut at each `&`, and each segment that is not empty gives one pair.
pub open spec fn decode_pairs(text: Seq<char>) -> Seq<Pair>
    decreases text.len(),
{
    let cut = after_last(text, '&');
    if text.len() == 0 {
        Seq::empty()
    } else if 0 < cut <= text.len() {
        decode_pairs(text.take(cut - 1)) + decode_segment(text.skip(cut))
    } else {
        decode_segment(text)
    }
}

/// Every character of an encoded byte string is unreserved, `+` or `%`.
pub proof fn lemma_form_encode_alphabet(bytes: Seq<u8>)
    ensures
        forall|i: int|
            0 <= i < form_encode(bytes).len() ==> is_form_char(#[trigger] form_encode(bytes)[i]),
    decreases bytes.len(),
{
    if bytes.len() > 0 {
        lemma_form_encode_alphabet(bytes.skip(1));
        let head = encode_byte(bytes[0]);
        let tail = form_encode(bytes.skip(1));
        assert forall|i: int| 0 <= i < head.len() implies is_form_char(#[trigger] head[i]) by {
            lemma_hex_digit(bytes[0] as int / 16);
            lemma_hex_digit(bytes[0] as int % 16);
        }
        assert forall|i: int| 0 <= i < form_encode(bytes).len() implies is_form_char(
            #[trigger] form_encode(bytes)[i],
        ) by {
            if i < head.len() {
                assert(form_encode(bytes)[i] == head[i]);
            } else {
                assert(form_encode(bytes)[i] == tail[i - head.len()]);
            }
        }
    }
}

/// A hexadecimal digit is an unreserved character that spells its value.
pub proof fn lemma_hex_digit(n: int)
    requires
        0 <= n < 16,
    ensures
        is_form_char(hex_digit(n)),
        hex_value(hex_digit(n)) == Some(n),
{
}

/// Decoding undoes the encoding of a byte string.
pub proof fn lemma_form_decode_encode(bytes: Seq<u8>)
    ensures
        form_decode(form_encode(bytes)) == bytes,
    decreases bytes.len(),
{
    if bytes.len() > 0 {
        let b = bytes[0];
        let rest = form_encode(bytes.skip(1));
        let text = form_encode(bytes);
        lemma_form_decode_encode(bytes.skip(1));
        assert(text == encode_byte(b) + rest);
        if is_unreserved(b) {
            assert(text[0] == b as char);
            assert(text.skip(1) == rest);
            assert(encode_utf8(seq![b as char]) == seq![b]) by {
                is_ascii_chars_encode_utf8(seq![b as char]);
            }
        } else if b == 0x20 {
            assert(text[0] == '+');
            assert(text.skip(1) == rest);
        } else {
            lemma_hex_digit(b as int / 16);
            lemma_hex_digit(b as int % 16);
            assert(text[0] == '%');
            assert(text[1] == hex_digit(b as int / 16));
            assert(text[2] == hex_digit(b as int % 16));
            assert(text.skip(3) == rest);
            assert(((b as int / 16) * 16 + b as int % 16) as u8 == b);
        }
        assert(form_decode(text) == seq![b] + bytes.skip(1));
        assert(seq![b] + bytes.skip(1) == bytes);
    }
}

/// Decoding undoes the encoding of a text.
pub proof fn lemma_decode_text_encode_text(text: Seq<char>)
    ensures
        decode_text(encode_text(text)) == text,
{
    lemma_form_decode_encode(encode_utf8(text));
    encode_utf8_decode_utf8(text);
}

/// An encoded text holds none of the separators `&`, `=` and `?`.
pub proof fn lemma_encode_text_lacks_separators(text: Seq<char>)
    ensures
        lacks(encode_text(text), '&'),
        lacks(encode_text(text), '='),
        lacks(encode_text(text), '?'),
{
    lemma_form_encode_alphabet(encode_utf8(text));
}

/// Where `c` does not occur in `head`, the first `c` of `head + c + tail`
/// stands right after `head`.
pub proof fn lemma_first_position(head: Seq<char>, c: char, tail: Seq<char>)
    requires
        lacks(head, c),
    ensures
        first_position(head + seq![c] + tail, c) == head.len(),
    decreases head.len(),
{
    let text = head + seq![c] + tail;
    if head.len() == 0 {
        assert(text[0] == c);
    } else {
        assert(text[0] == head[0]);
        assert(text.skip(1) == head.skip(1) + seq![c] + tail);
        assert forall|i: int| 0 <= i < head.skip(1).len() implies head.skip(1)[i] != c by {
            assert(head.skip(1)[i] == head[i + 1]);
        }
        lemma_first_position(head.skip(1), c, tail);
    }
}

/// Where `c` does not occur in `text`, no position follows a last `c`.
pub proof fn lemma_after_last_absent(text: Seq<char>, c: char)
    requires
        lacks(text, c),
    ensures
        after_last(text, c) == 0,
    decreases text.len(),
{
    if text.len() > 0 {
        assert(text.last() == text[text.len() - 1]);
        assert forall|i: int| 0 <= i < text.drop_last().len() implies text.drop_last()[i]
            != c by {
            assert(text.drop_last()[i] == text[i]);
        }
        lemma_after_last_absent(text.drop_last(), c);
    }
}

/// Where `c` does not occur in `tail`, the last `c` of `head + c + tail` is
/// the one between them.
pub proof fn lemma_after_last(head: Seq<char>, c: char, tail: Seq<char>)
    requires
        lacks(tail, c),
    ensures
        after_last(head + seq![c] + tail, c) == head.len() + 1,
    decreases tail.len(),
{
    let text = head + seq![c] + tail;
    if tail.len() == 0 {
        assert(text.last() == c);
    } else {
        assert(text.last() == tail.last());
        assert(tail.last() == tail[tail.len() - 1]);
        assert(text.drop_last() == head + seq![c] + tail.drop_last());
        assert forall|i: int| 0 <= i < tail.drop_last().len() implies tail.drop_last()[i]
            != c by {
            assert(tail.drop_last()[i] == tail[i]);
        }
        lemma_after_last(head, c, tail.drop_last());
    }
}

/// Decoding undoes the encoding of one pair.
pub proof fn lemma_decode_pair_encode_pair(pair: Pair)
    ensures
        decode_pair(encode_pair(pair)) == pair,
        encode_pair(pair).len() > 0,
        lacks(encode_pair(pair), '&'),
{
    let name = encode_text(pair.0);
    let value = encode_text(pair.1);
    let segment = encode_pair(pair);
    lemma_encode_text_lacks_separators(pair.0);
    lemma_encode_text_lacks_separators(pair.1);
    lemma_first_position(name, '=', value);
    assert(segment.take(name.len() as int) == name);
    assert(segment.skip(name.len() as int + 1) == value);
    lemma_decode_text_encode_text(pair.0);
    lemma_decode_text_encode_text(pair.1);
    assert forall|i: int| 0 <= i < segment.len() implies segment[i] != '&' by {
        if i < name.len() {
            assert(segment[i] == name[i]);
        } else if i > name.len() {
            assert(segment[i] == value[i - name.len() - 1]);
        }
    }
}

/// A text without `&` is one segment.
pub proof fn lemma_decode_pairs_one_segment(segment: Seq<char>)
    requires
        lacks(segment, '&'),
    ensures
        decode_pairs(segment) == decode_segment(segment),
{
    lemma_after_last_absent(segment, '&');
}

/// The segment after the last `&` gives the last pairs.
pub proof fn lemma_decode_pairs_last_segment(front: Seq<char>, back: Seq<char>)
    requires
        lacks(back, '&'),
    ensures
        decode_pairs(front + seq!['&'] + back) == decode_pairs(front) + decode_segment(back),
{
    let text = front + seq!['&'] + back;
    lemma_after_last(front, '&', back);
    assert(text.take(front.len() as int) == front);
    assert(text.skip(front.len() as int + 1) == back);
}

/// The encoded params stand for the params they were made from: decoding
/// gives back every pair, duplicates included, in the order given.
pub proof fn lemma_decode_pairs_encode_pairs(pairs: Seq<Pair>)
    ensures
        decode_pairs(encode_pairs(pairs)) == pairs,
    decreases pairs.len(),
{
    if pairs.len() == 0 {
    } else if pairs.len() == 1 {
        let segment = encode_pair(pairs[0]);
        lemma_decode_pair_encode_pair(pairs[0]);
        lemma_decode_pairs_one_segment(segment);
        assert(decode_segment(segment) == seq![pairs[0]]);
        assert(seq![pairs[0]] == pairs);
    } else {
        let front = encode_pairs(pairs.drop_last());
        let back = encode_pair(pairs.last());
        lemma_decode_pair_encode_pair(pairs.last());
        lemma_decode_pairs_last_segment(front, back);
        lemma_decode_pairs_encode_pairs(pairs.drop_last());
        assert(decode_segment(back) == seq![pairs.last()]);
        assert(pairs.drop_last() + seq![pairs.last()] == pairs);
    }
}

/// The encoded params hold no `?`.
pub proof fn lemma_encode_pairs_lacks_question_mark(pairs: Seq<Pair>)
    ensures
        lacks(encode_pairs(pairs), '?'),
    decreases pairs.len(),
{
    let text = encode_pairs(pairs);
    if pairs.len() > 0 {
        let pair = pairs.last();
        let name = encode_text(pair.0);
        let value = encode_text(pair.1);
        lemma_encode_text_lacks_separators(pair.0);
        lemma_encode_text_lacks_separators(pair.1);
        assert(lacks(encode_pair(pair), '?')) by {
            assert forall|i: int| 0 <= i < encode_pair(pair).len() implies encode_pair(pair)[i]
                != '?' by {
                if i < name.len() {
                    assert(encode_pair(pair)[i] == name[i]);
                } else if i > name.len() {
                    assert(encode_pair(pair)[i] == value[i - name.len() - 1]);
                }
            }
        }
        if pairs.len() > 1 {
            let front = encode_pairs(pairs.drop_last());
            lemma_encode_pairs_lacks_question_mark(pairs.drop_last());
            assert forall|i: int| 0 <= i < text.len() implies text[i] != '?' by {
                if i < front.len() {
                    assert(text[i] == front[i]);
                } else if i > front.len() {
                    assert(text[i] == encode_pair(pair)[i - front.len() - 1]);
                }
            }
        }
    }
}

/// How often `c` occurs in `text`.
pub open spec fn occurrences(text: Seq<char>, c: char) -> nat
    decreases text.len(),
{
    if text.len() == 0 {
        0
    } else if text.last() == c {
        occurrences(text.drop_last(), c) + 1
    } else {
        occurrences(text.drop_last(), c)
    }
}

/// A character occurs in `head + tail` as often as in `head` and in `tail`
/// together.
pub proof fn lemma_occurrences_add(head: Seq<char>, tail: Seq<char>, c: char)
    ensures
        occurrences(head + tail, c) == occurrences(head, c) + occurrences(tail, c),
    decreases tail.len(),
{
    if tail.len() == 0 {
        assert(head + tail == head);
    } else {
        assert((head + tail).drop_last() == head + tail.drop_last());
        assert((head + tail).last() == tail.last());
        lemma_occurrences_add(head, tail.drop_last(), c);
    }
}

/// A character that a text lacks occurs in it zero times.
pub proof fn lemma_occurrences_absent(text: Seq<char>, c: char)
    requires
        lacks(text, c),
    ensures
        occurrences(text, c) == 0,
    decreases text.len(),
{
    if text.len() > 0 {
        assert(text.last() == text[text.len() - 1]);
        assert forall|i: int| 0 <= i < text.drop_last().len() implies text.drop_last()[i]
            != c by {
            assert(text.drop_last()[i] == text[i]);
        }
        lemma_occurrences_absent(text.drop_last(), c);
    }
}

} // verus!
