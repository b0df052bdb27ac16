//! Text and bytes: UTF-8 decoding, lists of lines, and the decimal names of
//! numeric format identifiers.

use crate::common::{ClipboardError, ErrorView};
use vstd::prelude::*;
use vstd::string::StrSliceExecFns;
use vstd::utf8::{decode_utf8, encode_utf8, valid_utf8};

verus! {

/// `String::from_utf8` of the standard library, with its error dropped. The
/// contract claims what the documentation of that function says: the result
/// is `Some` exactly when `bytes` are valid UTF-8, and the string then holds
/// the characters that the bytes encode.
#[verifier::external_body]
fn string_from_utf8(bytes: Vec<u8>) -> (r: Option<String>)
    ensures
        r is Some <==> valid_utf8(bytes@),
        r matches Some(s) ==> s@ == decode_utf8(bytes@),
{
    String::from_utf8(bytes).ok()
}

/// Reads `bytes` as text. Bytes that are not UTF-8 are a decoding error; no
/// byte is dropped or replaced.
pub fn decode_text(bytes: Vec<u8>) -> (r: Result<String, ClipboardError>)
    ensures
        r is Ok <==> valid_utf8(bytes@),
        r matches Ok(s) ==> s@ == decode_utf8(bytes@) && encode_utf8(s@) == bytes@,
        r matches Err(e) ==> e@ == ErrorView::Decoding,
{
    proof {
        if valid_utf8(bytes@) {
            vstd::utf8::decode_utf8_encode_utf8(bytes@);
        }
    }
    match string_from_utf8(bytes) {
        Some(s) => Ok(s),
        None => Err(ClipboardError::Decoding),
    }
}

/// Reads as text what a read of the text target came to. A failure of the
/// read stays what it is; contents are read as [`decode_text`] reads them, so
/// that an absent target is the empty string.
pub fn text_of(contents: Result<Vec<u8>, ClipboardError>) -> (r: Result<String, ClipboardError>)
    ensures
        match contents {
            Ok(bytes) => if valid_utf8(bytes@) {
                r matches Ok(text) && text@ == decode_utf8(bytes@)
            } else {
                r matches Err(e) && e@ == ErrorView::Decoding
            },
            Err(failure) => r matches Err(e) && e == failure,
        },
{
    match contents {
        Ok(bytes) => decode_text(bytes),
        Err(failure) => Err(failure),
    }
}

/// The bytes of `text`.
pub fn encode_text(text: &str) -> (r: Vec<u8>)
    ensures
        r@ == encode_utf8(text@),
{
    text.as_bytes_vec()
}

/// The byte that ends a line.
pub const LINE_FEED: u8 = 10;

/// The byte that may stand before a line feed and belongs to the line ending.
pub const CARRIAGE_RETURN: u8 = 13;

/// `parts` in order, with one line feed between two neighbours.
pub open spec fn joined(parts: Seq<Seq<u8>>) -> Seq<u8>
    decreases parts.len(),
{
    if parts.len() == 0 {
        Seq::empty()
    } else if parts.len() == 1 {
        parts[0]
    } else {
        joined(parts.drop_last()) + seq![LINE_FEED] + parts.last()
    }
}

/// The UTF-8 bytes of each string of `lines`.
pub open spec fn encoded(lines: Seq<String>) -> Seq<Seq<u8>> {
    Seq::new(lines.len(), |i: int| encode_utf8(lines[i]@))
}

/// Writes a list of strings as lines: the strings in order, separated by a
/// line feed, with no line feed after the last.
pub fn join_lines(lines: &Vec<String>) -> (r: Vec<u8>)
    ensures
        r@ == joined(encoded(lines@)),
{
    let mut out: Vec<u8> = Vec::new();
    let mut i: usize = 0;
    while i < lines.len()
        invariant
            i <= lines.len(),
            out@ == joined(encoded(lines@).take(i as int)),
        decreases lines.len() - i,
    {
        if i > 0 {
            out.push(LINE_FEED);
        }
        let mut piece = lines[i].as_str().as_bytes_vec();
        out.append(&mut piece);
        proof {
            let all = encoded(lines@);
            let next = all.take(i as int + 1);
            assert(next.drop_last() == all.take(i as int));
            assert(next.last() == encode_utf8(lines@[i as int]@));
        }
        i += 1;
    }
    proof {
        assert(encoded(lines@).take(lines.len() as int) == encoded(lines@));
    }
    out
}

/// The index of the first line feed of `bytes`, or their number if there is
/// none.
pub open spec fn first_line_feed(bytes: Seq<u8>) -> nat
    decreases bytes.len(),
{
    if bytes.len() == 0 || bytes[0] == LINE_FEED {
        0
    } else {
        1 + first_line_feed(bytes.drop_first())
    }
}

/// `line` without the carriage return at its end, if it has one.
pub open spec fn without_carriage_return(line: Seq<u8>) -> Seq<u8> {
    if line.len() > 0 && line.last() == CARRIAGE_RETURN {
        line.drop_last()
    } else {
        line
    }
}

/// The lines of `bytes`. A line ends at a line feed; the line feed, and a
/// carriage return directly before it, belong to the ending and not to the
/// line. What follows the last line feed is a line too unless it is empty,
/// and keeps a carriage return at its end.
pub open spec fn lines_of(bytes: Seq<u8>) -> Seq<Seq<u8>>
    decreases bytes.len(),
{
    let n = first_line_feed(bytes) as int;
    if bytes.len() == 0 {
        Seq::empty()
    } else if n >= bytes.len() {
        seq![bytes]
    } else {
        seq![without_carriage_return(bytes.take(n))] + lines_of(bytes.skip(n + 1))
    }
}

/// Where the first line feed stands: before `k` there is none, and at `k`
/// there is one unless `k` is the end.
proof fn lemma_first_line_feed(bytes: Seq<u8>, k: int)
    requires
        0 <= k <= bytes.len(),
        forall|j: int| 0 <= j < k ==> bytes[j] != LINE_FEED,
        k < bytes.len() ==> bytes[k] == LINE_FEED,
    ensures
        first_line_feed(bytes) == k,
    decreases k,
{
    if k > 0 {
        lemma_first_line_feed(bytes.drop_first(), k - 1);
    }
}

/// The first line feed is inside `bytes` or at their end, and no line feed
/// stands before it.
proof fn lemma_first_line_feed_is_first(bytes: Seq<u8>)
    ensures
        first_line_feed(bytes) <= bytes.len(),
        first_line_feed(bytes) < bytes.len() ==> bytes[first_line_feed(bytes) as int] == LINE_FEED,
        forall|j: int| 0 <= j < first_line_feed(bytes) ==> bytes[j] != LINE_FEED,
    decreases bytes.len(),
{
    if bytes.len() == 0 || bytes[0] == LINE_FEED {
    } else {
        let rest = bytes.drop_first();
        lemma_first_line_feed_is_first(rest);
        assert forall|j: int| 0 <= j < first_line_feed(bytes) implies bytes[j] != LINE_FEED by {
            if j > 0 {
                assert(bytes[j] == rest[j - 1]);
            }
        }
    }
}

/// The byte sequences that `lines` hold.
pub open spec fn byte_lines(lines: Seq<Vec<u8>>) -> Seq<Seq<u8>> {
    Seq::new(lines.len(), |i: int| lines[i]@)
}

/// Splits `bytes` into lines.
pub fn split_lines(bytes: &Vec<u8>) -> (r: Vec<Vec<u8>>)
    ensures
        byte_lines(r@) == lines_of(bytes@),
{
    let mut out: Vec<Vec<u8>> = Vec::new();
    let mut line: Vec<u8> = Vec::new();
    let mut start: usize = 0;
    let mut i: usize = 0;
    proof {
        assert(bytes@.skip(0) == bytes@);
        assert(byte_lines(out@) + lines_of(bytes@) == lines_of(bytes@));
    }
    while i < bytes.len()
        invariant
            start <= i <= bytes.len(),
            line@ == bytes@.subrange(start as int, i as int),
            forall|j: int| start <= j < i ==> bytes@[j] != LINE_FEED,
            byte_lines(out@) + lines_of(bytes@.skip(start as int)) == lines_of(bytes@),
        decreases bytes.len() - i,
    {
        let b = bytes[i];
        if b == LINE_FEED {
            let ghost rest = bytes@.skip(start as int);
            let ghost full = line@;
            let n = line.len();
            if n > 0 && line[n - 1] == CARRIAGE_RETURN {
                line.truncate(n - 1);
            }
            proof {
                lemma_first_line_feed(rest, i - start);
                assert(rest.take(i - start) == full);
                assert(line@ == without_carriage_return(full));
                assert(rest.skip(i - start + 1) == bytes@.skip(i as int + 1));
                let ghost shown = byte_lines(out@);
                assert(shown.push(line@) + lines_of(bytes@.skip(i as int + 1)) == shown + lines_of(
                    rest,
                ));
                assert(byte_lines(out@.push(line)) == shown.push(line@));
            }
            out.push(line);
            line = Vec::new();
            start = i + 1;
        } else {
            line.push(b);
        }
        i += 1;
    }
    proof {
        let rest = bytes@.skip(start as int);
        lemma_first_line_feed(rest, i - start);
        assert(rest == line@);
    }
    if start < bytes.len() {
        proof {
            let shown = byte_lines(out@);
            assert(byte_lines(out@.push(line)) == shown.push(line@));
            assert(shown.push(line@) == shown + seq![line@]);
        }
        out.push(line);
    } else {
        assert(byte_lines(out@) + Seq::<Seq<u8>>::empty() == byte_lines(out@));
    }
    out
}

/// The lines of UTF-8 bytes are UTF-8.
proof fn lemma_lines_are_text(bytes: Seq<u8>)
    requires
        valid_utf8(bytes),
    ensures
        forall|i: int| 0 <= i < lines_of(bytes).len() ==> valid_utf8(#[trigger] lines_of(bytes)[i]),
    decreases bytes.len(),
{
    let n = first_line_feed(bytes) as int;
    lemma_first_line_feed_is_first(bytes);
    if bytes.len() != 0 && n < bytes.len() {
        vstd::utf8::is_char_boundary_iff_not_is_continuation_byte(bytes, n);
        vstd::utf8::valid_utf8_split(bytes, n);
        let head = bytes.take(n);
        let tail = bytes.skip(n);
        assert(head == bytes.subrange(0, n));
        assert(tail == bytes.subrange(n, bytes.len() as int));
        assert(tail[0] == LINE_FEED);
        assert(vstd::utf8::pop_first_scalar(tail) == bytes.skip(n + 1));
        lemma_lines_are_text(bytes.skip(n + 1));
        if head.len() > 0 && head.last() == CARRIAGE_RETURN {
            vstd::utf8::is_char_boundary_iff_not_is_continuation_byte(head, head.len() - 1);
            vstd::utf8::valid_utf8_split(head, head.len() - 1);
            assert(head.drop_last() == head.subrange(0, head.len() - 1));
        }
        assert forall|i: int| 0 <= i < lines_of(bytes).len() implies valid_utf8(
            #[trigger] lines_of(bytes)[i],
        ) by {
            if i > 0 {
                assert(lines_of(bytes)[i] == lines_of(bytes.skip(n + 1))[i - 1]);
            }
        }
    }
}

/// Reads each of `pieces` as text; nothing if one of them is not UTF-8.
fn decode_pieces(pieces: Vec<Vec<u8>>) -> (r: Option<Vec<String>>)
    ensures
        r is Some <==> forall|i: int| 0 <= i < pieces.len() ==> valid_utf8(#[trigger] pieces@[i]@),
        r matches Some(list) ==> encoded(list@) == byte_lines(pieces@),
{
    let ghost all = pieces@;
    let mut out: Vec<String> = Vec::new();
    for piece in it: pieces.into_iter()
        invariant
            it.seq() == all,
            out.len() == it.index(),
            forall|j: int|
                0 <= j < out.len() ==> valid_utf8(#[trigger] all[j]@) && encode_utf8(out@[j]@)
                    == all[j]@,
    {
        proof {
            if valid_utf8(piece@) {
                vstd::utf8::decode_utf8_encode_utf8(piece@);
            }
        }
        match string_from_utf8(piece) {
            Some(text) => {
                out.push(text);
            },
            None => {
                return None;
            },
        }
    }
    assert(encoded(out@) == byte_lines(all));
    Some(out)
}

/// Reads `data` as a list of paths, one on each line. Data that is not UTF-8
/// is a decoding error.
pub fn file_list(data: Vec<u8>) -> (r: Result<Vec<String>, ClipboardError>)
    ensures
        r is Ok <==> valid_utf8(data@),
        r matches Ok(list) ==> encoded(list@) == lines_of(data@),
        r matches Err(e) ==> e@ == ErrorView::Decoding,
{
    let text = decode_text(data)?;
    let bytes = encode_text(text.as_str());
    let pieces = split_lines(&bytes);
    proof {
        lemma_lines_are_text(bytes@);
        assert forall|i: int| 0 <= i < pieces.len() implies valid_utf8(#[trigger] pieces@[i]@) by {
            assert(byte_lines(pieces@)[i] == pieces@[i]@);
        }
    }
    match decode_pieces(pieces) {
        Some(list) => Ok(list),
        None => Err(ClipboardError::Decoding),
    }
}

/// The byte `+`, which may stand before the digits of a number.
pub const PLUS_SIGN: u8 = 43;

/// The byte `0`; the nine bytes after it are the other digits.
pub const DIGIT_ZERO: u8 = 48;

/// True of the bytes `0` to `9`.
pub open spec fn is_digit(byte: u8) -> bool {
    DIGIT_ZERO <= byte <= DIGIT_ZERO + 9
}

/// True when every byte of `bytes` is a digit.
pub open spec fn all_digits(bytes: Seq<u8>) -> bool {
    forall|i: int| 0 <= i < bytes.len() ==> is_digit(#[trigger] bytes[i])
}

/// The number that `digits` write in base ten.
pub open spec fn decimal_value(digits: Seq<u8>) -> nat
    decreases digits.len(),
{
    if digits.len() == 0 {
        0
    } else {
        decimal_value(digits.drop_last()) * 10 + (digits.last() - DIGIT_ZERO) as nat
    }
}

/// `name` without the plus sign that it may begin with.
pub open spec fn unsigned_part(name: Seq<u8>) -> Seq<u8> {
    if name.len() > 0 && name[0] == PLUS_SIGN {
        name.drop_first()
    } else {
        name
    }
}

/// The format number that `name` writes: an optional plus sign, then one or
/// more digits whose value fits in 32 bits. Any other name writes none.
pub open spec fn format_id_of(name: Seq<u8>) -> Option<u32> {
    let digits = unsigned_part(name);
    if digits.len() > 0 && all_digits(digits) && decimal_value(digits) <= u32::MAX {
        Some(decimal_value(digits) as u32)
    } else {
        None
    }
}

/// The digits of `n` in base ten, without leading zeros.
pub open spec fn decimal_digits(n: nat) -> Seq<u8>
    decreases n,
{
    if n < 10 {
        seq![(DIGIT_ZERO + n) as u8]
    } else {
        decimal_digits(n / 10).push((DIGIT_ZERO + n % 10) as u8)
    }
}

/// A number written with more digits is not smaller.
proof fn lemma_decimal_value_grows(digits: Seq<u8>, k: int)
    requires
        0 <= k <= digits.len(),
        all_digits(digits),
    ensures
        decimal_value(digits.take(k)) <= decimal_value(digits),
    decreases digits.len(),
{
    if k == digits.len() {
        assert(digits.take(k) == digits);
    } else {
        let shorter = digits.drop_last();
        assert(shorter.take(k) == digits.take(k));
        lemma_decimal_value_grows(shorter, k);
    }
}

/// Reads a format number from its decimal name.
pub fn parse_format_id(name: &str) -> (r: Option<u32>)
    ensures
        r == format_id_of(encode_utf8(name@)),
{
    let bytes = name.as_bytes();
    let n = bytes.len();
    let start: usize = if n > 0 && bytes[0] == PLUS_SIGN {
        1
    } else {
        0
    };
    let ghost digits = unsigned_part(bytes@);
    assert(digits == bytes@.skip(start as int));
    if start == n {
        return None;
    }
    let mut value: u32 = 0;
    let mut i: usize = start;
    while i < n
        invariant
            start <= i <= n,
            n == bytes@.len(),
            bytes@ == encode_utf8(name@),
            digits == unsigned_part(bytes@),
            digits == bytes@.skip(start as int),
            all_digits(digits.take(i - start)),
            value == decimal_value(digits.take(i - start)),
        decreases n - i,
    {
        let b = bytes[i];
        let ghost seen = digits.take(i - start);
        let ghost more = digits.take(i - start + 1);
        assert(more.drop_last() == seen);
        assert(more.last() == b);
        if b < DIGIT_ZERO || b > DIGIT_ZERO + 9 {
            assert(!is_digit(digits[i - start]));
            return None;
        }
        let next: u64 = value as u64 * 10 + (b - DIGIT_ZERO) as u64;
        if next > u32::MAX as u64 {
            proof {
                if all_digits(digits) {
                    lemma_decimal_value_grows(digits, i - start + 1);
                }
            }
            return None;
        }
        value = next as u32;
        i += 1;
    }
    assert(digits.take(i - start) == digits);
    Some(value)
}

/// Appends the decimal digits of `n` to `out`.
fn push_decimal(n: u32, out: &mut Vec<u8>)
    ensures
        final(out)@ == old(out)@ + decimal_digits(n as nat),
    decreases n,
{
    if n >= 10 {
        push_decimal(n / 10, out);
    }
    let digit: u8 = DIGIT_ZERO + (n % 10) as u8;
    out.push(digit);
    proof {
        let before = old(out)@;
        if n >= 10 {
            assert(before + decimal_digits(n as nat) == (before + decimal_digits(
                (n / 10) as nat,
            )).push(digit));
        } else {
            assert(before + decimal_digits(n as nat) == before.push(digit));
        }
    }
}

/// The decimal digits of a number are digits, and not empty.
pub proof fn lemma_decimal_digits_are_digits(n: nat)
    ensures
        decimal_digits(n).len() > 0,
        all_digits(decimal_digits(n)),
    decreases n,
{
    if n >= 10 {
        lemma_decimal_digits_are_digits(n / 10);
    }
}

/// Bytes below 128 are UTF-8, one character each.
proof fn lemma_ascii_is_text(bytes: Seq<u8>)
    requires
        forall|i: int| 0 <= i < bytes.len() ==> bytes[i] < 128,
    ensures
        valid_utf8(bytes),
{
    let chars = Seq::new(bytes.len(), |i: int| bytes[i] as char);
    assert(vstd::utf8::is_ascii_chars(chars));
    vstd::utf8::is_ascii_chars_encode_utf8(chars);
    assert(encode_utf8(chars) == bytes);
    vstd::utf8::encode_utf8_valid_utf8(chars);
}

/// Writes a format number as its decimal name.
pub fn format_id_name(id: u32) -> (r: String)
    ensures
        encode_utf8(r@) == decimal_digits(id as nat),
{
    let mut digits: Vec<u8> = Vec::new();
    push_decimal(id, &mut digits);
    proof {
        assert(digits@ == decimal_digits(id as nat));
        lemma_decimal_digits_are_digits(id as nat);
        lemma_ascii_is_text(digits@);
        vstd::utf8::decode_utf8_encode_utf8(digits@);
    }
    match string_from_utf8(digits) {
        Some(name) => name,
        None => String::new(),
    }
}

/// The number that its own decimal digits write.
proof fn lemma_decimal_value_of_digits(n: nat)
    ensures
        decimal_value(decimal_digits(n)) == n,
    decreases n,
{
    let digits = decimal_digits(n);
    if n >= 10 {
        lemma_decimal_value_of_digits(n / 10);
        assert(digits.drop_last() == decimal_digits(n / 10));
        assert(digits.last() == DIGIT_ZERO + n % 10);
    } else {
        assert(digits.drop_last() == Seq::<u8>::empty());
        assert(digits.last() == DIGIT_ZERO + n);
        assert(decimal_value(digits.drop_last()) == 0);
    }
}

/// A format number is read back from the name that is written for it.
pub proof fn lemma_format_id_round_trip(id: u32)
    ensures
        format_id_of(decimal_digits(id as nat)) == Some(id),
{
    let digits = decimal_digits(id as nat);
    lemma_decimal_digits_are_digits(id as nat);
    lemma_decimal_value_of_digits(id as nat);
    assert(is_digit(digits[0]));
}

/// True of bytes that are lines as [`join_lines`] writes them: no line feed
/// stands at the end, and no carriage return directly before a line feed.
pub open spec fn plain_lines(bytes: Seq<u8>) -> bool {
    &&& bytes.len() > 0 ==> bytes.last() != LINE_FEED
    &&& forall|i: int|
        0 <= i < bytes.len() - 1 && bytes[i + 1] == LINE_FEED ==> #[trigger] bytes[i]
            != CARRIAGE_RETURN
}

/// Joining a first part and at least one more puts a line feed after the
/// first.
proof fn lemma_joined_prepend(first: Seq<u8>, more: Seq<Seq<u8>>)
    requires
        more.len() > 0,
    ensures
        joined(seq![first] + more) == first + seq![LINE_FEED] + joined(more),
    decreases more.len(),
{
    let all = seq![first] + more;
    assert(all.last() == more.last());
    if more.len() == 1 {
        assert(all.drop_last() == seq![first]);
        assert(joined(all.drop_last()) == first);
    } else {
        assert(all.drop_last() == seq![first] + more.drop_last());
        lemma_joined_prepend(first, more.drop_last());
        assert(joined(all) == (first + seq![LINE_FEED] + joined(more.drop_last())) + seq![
            LINE_FEED,
        ] + more.last());
        assert(joined(all) == first + seq![LINE_FEED] + (joined(more.drop_last()) + seq![
            LINE_FEED,
        ] + more.last()));
    }
}

/// The first line of bytes that are written as [`join_lines`] writes them
/// has no carriage return to lose, and what follows its line feed is written
/// in the same way and is not empty.
proof fn lemma_plain_lines_step(bytes: Seq<u8>, n: int)
    requires
        plain_lines(bytes),
        0 <= n < bytes.len(),
        bytes[n] == LINE_FEED,
    ensures
        without_carriage_return(bytes.take(n)) == bytes.take(n),
        bytes.skip(n + 1).len() > 0,
        plain_lines(bytes.skip(n + 1)),
{
    let head = bytes.take(n);
    let rest = bytes.skip(n + 1);
    assert(n < bytes.len() - 1) by {
        assert(bytes.last() != LINE_FEED);
    }
    assert(without_carriage_return(head) == head) by {
        if n > 0 {
            assert(bytes[n - 1] != CARRIAGE_RETURN);
            assert(head.last() == bytes[n - 1]);
        }
    }
    assert(rest.last() == bytes.last());
    assert forall|i: int|
        0 <= i < rest.len() - 1 && rest[i + 1] == LINE_FEED implies #[trigger] rest[i]
        != CARRIAGE_RETURN by {
        assert(rest[i] == bytes[n + 1 + i]);
        assert(rest[i + 1] == bytes[n + 1 + i + 1]);
    }
}

/// Bytes are their first line, its line feed and what follows it.
proof fn lemma_take_skip(bytes: Seq<u8>, n: int)
    requires
        0 <= n < bytes.len(),
        bytes[n] == LINE_FEED,
    ensures
        bytes.take(n) + seq![LINE_FEED] + bytes.skip(n + 1) == bytes,
{
    let whole = bytes.take(n) + seq![LINE_FEED] + bytes.skip(n + 1);
    assert(whole.len() == bytes.len());
    assert forall|i: int| 0 <= i < bytes.len() implies whole[i] == bytes[i] by {
        if i < n {
        } else if i == n {
        } else {
            assert(whole[i] == bytes.skip(n + 1)[i - n - 1]);
        }
    }
    assert(whole =~= bytes);
}

/// Lines that are split and joined again are the bytes they were, where the
/// bytes are written as [`join_lines`] writes them.
pub proof fn lemma_split_then_join(bytes: Seq<u8>)
    requires
        plain_lines(bytes),
    ensures
        joined(lines_of(bytes)) == bytes,
    decreases bytes.len(),
{
    let n = first_line_feed(bytes) as int;
    lemma_first_line_feed_is_first(bytes);
    if bytes.len() != 0 && n < bytes.len() {
        let head = bytes.take(n);
        let rest = bytes.skip(n + 1);
        lemma_plain_lines_step(bytes, n);
        lemma_split_then_join(rest);
        assert(lines_of(bytes) == seq![head] + lines_of(rest));
        assert(lines_of(rest).len() > 0);
        lemma_joined_prepend(head, lines_of(rest));
        lemma_take_skip(bytes, n);
    }
}

} // verus!
