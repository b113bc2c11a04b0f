//! Text: decimal numbers, lower case, substrings, and the messages built from them.

use vstd::prelude::*;
use vstd::string::*;
use vstd::utf8::*;

verus! {

/// The character that writes the digit `d`.
pub open spec fn digit(d: nat) -> char
    recommends
        d < 10,
{
    if d == 0 {
        '0'
    } else if d == 1 {
        '1'
    } else if d == 2 {
        '2'
    } else if d == 3 {
        '3'
    } else if d == 4 {
        '4'
    } else if d == 5 {
        '5'
    } else if d == 6 {
        '6'
    } else if d == 7 {
        '7'
    } else if d == 8 {
        '8'
    } else {
        '9'
    }
}

/// The decimal numeral of `n`, without leading zeros.
pub open spec fn decimal(n: nat) -> Seq<char>
    decreases n,
{
    if n < 10 {
        seq![digit(n)]
    } else {
        decimal(n / 10).push(digit(n % 10))
    }
}

/// Whether `needle` occurs in `hay` as a run of consecutive characters.
pub open spec fn occurs_in(needle: Seq<char>, hay: Seq<char>) -> bool {
    exists|i: int|
        0 <= i && i + needle.len() <= hay.len() && #[trigger] hay.subrange(i, i + needle.len())
            == needle
}

/// The lower-case form of a text, as `str::to_lowercase` gives it.
pub uninterp spec fn lowercased(s: Seq<char>) -> Seq<char>;

/// `str::to_lowercase`: the result is named `lowercased`; nothing more is
/// claimed of it.
#[verifier::external_body]
pub(crate) fn lowercase(s: &str) -> (r: String)
    ensures
        r@ == lowercased(s@),
{
    s.to_lowercase()
}

/// `str::contains` with a string pattern: whether `needle` is a substring of `hay`.
#[verifier::external_body]
pub(crate) fn contains(hay: &str, needle: &str) -> (r: bool)
    ensures
        r == occurs_in(needle@, hay@),
{
    hay.contains(needle)
}

/// `String::from_utf8`: the text that `bytes` encode in UTF-8, or `None`
/// where they encode none.
#[verifier::external_body]
pub(crate) fn string_from_utf8(bytes: Vec<u8>) -> (r: Option<String>)
    ensures
        r is Some <==> valid_utf8(bytes@),
        r is Some ==> r.unwrap()@ == decode_utf8(bytes@),
{
    String::from_utf8(bytes).ok()
}

/// The characters that the bytes `b` stand for where each byte is one
/// character.
pub open spec fn chars_of(b: Seq<u8>) -> Seq<char> {
    Seq::new(b.len(), |i: int| b[i] as char)
}

/// Bytes that are digits are the UTF-8 encoding of the characters they
/// stand for.
proof fn lemma_digits_are_text(b: Seq<u8>)
    requires
        forall|i: int| 0 <= i < b.len() ==> 48 <= #[trigger] b[i] <= 57,
    ensures
        valid_utf8(b),
        decode_utf8(b) == chars_of(b),
{
    let chars = chars_of(b);
    assert(is_ascii_chars(chars)) by {
        assert forall|i: int| 0 <= i < chars.len() implies '\0' <= #[trigger] chars[i]
            <= '\u{7f}' by {
            assert(48 <= b[i] <= 57);
        }
    }
    is_ascii_chars_encode_utf8(chars);
    assert(encode_utf8(chars) =~= b) by {
        assert forall|i: int| 0 <= i < b.len() implies encode_utf8(chars)[i] == b[i] by {
            assert(chars[i] as u8 == encode_utf8(chars)[i]);
            assert(48 <= b[i] <= 57);
        }
    }
    encode_utf8_valid_utf8(chars);
    encode_utf8_decode_utf8(chars);
}

/// Writes `n` as a decimal numeral.
pub fn decimal_string(n: u64) -> (s: String)
    ensures
        s@ == decimal(n as nat),
{
    // The digits, the last one first.
    let mut rev: Vec<u8> = Vec::new();
    let mut m: u64 = n;
    let first: u8 = 48 + (m % 10) as u8;
    rev.push(first);
    m = m / 10;
    assert(chars_of(rev@.reverse()) =~= seq![digit((n % 10) as nat)]);
    assert(decimal(n as nat) =~= (if m > 0 {
        decimal(m as nat)
    } else {
        Seq::empty()
    }) + chars_of(rev@.reverse()));
    while m > 0
        invariant
            forall|i: int| 0 <= i < rev.len() ==> 48 <= #[trigger] rev[i] <= 57,
            decimal(n as nat) == (if m > 0 {
                decimal(m as nat)
            } else {
                Seq::empty()
            }) + chars_of(rev@.reverse()),
        decreases m,
    {
        let ghost before = rev@;
        let ghost more = m;
        let next: u8 = 48 + (m % 10) as u8;
        rev.push(next);
        m = m / 10;
        proof {
            assert(chars_of(rev@.reverse()) =~= seq![digit((more % 10) as nat)] + chars_of(
                before.reverse(),
            ));
            if more < 10 {
                assert(decimal(more as nat) =~= seq![digit(more as nat)]);
            } else {
                assert(decimal(more as nat) =~= decimal(m as nat).push(
                    digit((more % 10) as nat),
                ));
            }
            assert(decimal(n as nat) =~= (if m > 0 {
                decimal(m as nat)
            } else {
                Seq::empty()
            }) + chars_of(rev@.reverse()));
        }
    }
    let mut bytes: Vec<u8> = Vec::new();
    let mut i: usize = rev.len();
    while i > 0
        invariant
            i <= rev.len(),
            bytes.len() == rev.len() - i,
            forall|j: int| 0 <= j < bytes.len() ==> #[trigger] bytes[j] == rev[rev.len() - 1 - j],
        decreases i,
    {
        i -= 1;
        bytes.push(rev[i]);
    }
    proof {
        assert(bytes@ =~= rev@.reverse());
        lemma_digits_are_text(bytes@);
    }
    match string_from_utf8(bytes) {
        Some(s) => s,
        None => String::new(),
    }
}

/// The message for a record of kind `kind` that is not stored under `id`.
pub open spec fn missing_text(kind: Seq<char>, id: u64) -> Seq<char> {
    kind + " with id="@ + decimal(id as nat) + " not found."@
}

/// Builds the message for a record of kind `kind` that is not stored under `id`.
pub fn missing_message(kind: &str, id: u64) -> (s: String)
    ensures
        s@ == missing_text(kind@, id),
{
    let mut s = String::from_str(kind);
    s.append(" with id=");
    let number = decimal_string(id);
    s.append(number.as_str());
    s.append(" not found.");
    s
}

} // verus!
