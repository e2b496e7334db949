//! Texts as they are shown: masked numbers, shortened addresses, counts.

use crate::text::{decimal, decimal_text, is_trim_of, trimmed};
use vstd::prelude::*;
use vstd::string::StringExecFns;
use vstd::string::StringSliceAdditionalSpecFns;
use vstd::utf8::{decode_utf8, encode_utf8, encode_utf8_decode_utf8, is_char_boundary};

verus! {

/// The number of bytes of the UTF-8 encoding of `s`.
pub open spec fn byte_len(s: Seq<char>) -> int {
    encode_utf8(s).len() as int
}

/// Whether the byte position `index` of the UTF-8 encoding of `s` is where a
/// character begins, or the end.
pub open spec fn cuts_at(s: Seq<char>, index: int) -> bool {
    is_char_boundary(encode_utf8(s), index)
}

/// The text that the bytes from `from` up to `to` of the UTF-8 encoding of
/// `s` spell.
pub open spec fn byte_range(s: Seq<char>, from: int, to: int) -> Seq<char> {
    decode_utf8(encode_utf8(s).subrange(from, to))
}

/// A text of `len` bytes with four asterisks in place of the bytes from
/// `head` up to `tail`; a text of any other length as it is.
pub open spec fn masked(s: Seq<char>, len: int, head: int, tail: int) -> Seq<char> {
    if byte_len(s) != len {
        s
    } else {
        byte_range(s, 0, head) + "****"@ + byte_range(s, tail, len)
    }
}

/// A text of more than `max_length` bytes cut to its first `max_length`
/// bytes, with three dots behind; a shorter one as it is.
pub open spec fn truncated(s: Seq<char>, max_length: int) -> Seq<char> {
    if byte_len(s) <= max_length {
        s
    } else {
        byte_range(s, 0, max_length) + "..."@
    }
}

/// The numeral for a count: the Chinese numeral up to ten, the decimal
/// numeral beyond.
pub open spec fn count_numeral(count: nat) -> Seq<char> {
    if count == 0 {
        "零"@
    } else if count == 1 {
        "一"@
    } else if count == 2 {
        "二"@
    } else if count == 3 {
        "三"@
    } else if count == 4 {
        "四"@
    } else if count == 5 {
        "五"@
    } else if count == 6 {
        "六"@
    } else if count == 7 {
        "七"@
    } else if count == 8 {
        "八"@
    } else if count == 9 {
        "九"@
    } else if count == 10 {
        "十"@
    } else {
        decimal(count)
    }
}

/// The first `end` bytes of `s`, which must end where a character does.
fn head_bytes(s: &str, end: usize) -> (r: &str)
    requires
        cuts_at(s@, end as int),
        end <= byte_len(s@),
    ensures
        r@ == byte_range(s@, 0, end as int),
{
    let (head, _) = s.split_at(end);
    proof {
        encode_utf8_decode_utf8(head@);
    }
    head
}

/// The bytes of `s` from `start` on, which must be where a character begins.
fn tail_bytes(s: &str, start: usize) -> (r: &str)
    requires
        cuts_at(s@, start as int),
        start <= byte_len(s@),
    ensures
        r@ == byte_range(s@, start as int, byte_len(s@)),
{
    let (_, tail) = s.split_at(start);
    proof {
        encode_utf8_decode_utf8(tail@);
    }
    tail
}

/// An identity number with its middle hidden: of a text of 18 bytes the
/// first 6 bytes, four asterisks and the last 4 bytes; any other text as it
/// is. A text of 18 bytes must have characters begin at its bytes 6 and 14.
pub fn format_id_number_masked(id_number: &str) -> (r: String)
    requires
        byte_len(id_number@) == 18 ==> cuts_at(id_number@, 6) && cuts_at(id_number@, 14),
    ensures
        r@ == masked(id_number@, 18, 6, 14),
{
    if id_number.as_bytes().len() != 18 {
        return String::from_str(id_number);
    }
    let head = head_bytes(id_number, 6);
    let tail = tail_bytes(id_number, 14);
    String::from_str(head).concat("****").concat(tail)
}

/// A phone number with its middle hidden: of a text of 11 bytes the first 3
/// bytes, four asterisks and the last 4 bytes; any other text as it is. A
/// text of 11 bytes must have characters begin at its bytes 3 and 7.
pub fn format_phone_masked(phone: &str) -> (r: String)
    requires
        byte_len(phone@) == 11 ==> cuts_at(phone@, 3) && cuts_at(phone@, 7),
    ensures
        r@ == masked(phone@, 11, 3, 7),
{
    if phone.as_bytes().len() != 11 {
        return String::from_str(phone);
    }
    let head = head_bytes(phone, 3);
    let tail = tail_bytes(phone, 7);
    String::from_str(head).concat("****").concat(tail)
}

/// An address cut to `max_length` bytes, with three dots behind where
/// anything was cut. A longer address must have a character begin at its
/// byte `max_length`.
pub fn format_address_truncated(address: &str, max_length: usize) -> (r: String)
    requires
        byte_len(address@) > max_length ==> cuts_at(address@, max_length as int),
    ensures
        r@ == truncated(address@, max_length as int),
{
    if address.as_bytes().len() <= max_length {
        String::from_str(address)
    } else {
        let head = head_bytes(address, max_length);
        String::from_str(head).concat("...")
    }
}

/// A name without the whitespace around it.
pub fn format_name(name: &str) -> (r: String)
    ensures
        is_trim_of(name@, r@),
{
    trimmed(name)
}

/// The numeral for a count: the Chinese numeral up to ten, the decimal
/// numeral beyond.
pub fn format_count_chinese(count: usize) -> (r: String)
    ensures
        r@ == count_numeral(count as nat),
{
    if count == 0 {
        String::from_str("零")
    } else if count == 1 {
        String::from_str("一")
    } else if count == 2 {
        String::from_str("二")
    } else if count == 3 {
        String::from_str("三")
    } else if count == 4 {
        String::from_str("四")
    } else if count == 5 {
        String::from_str("五")
    } else if count == 6 {
        String::from_str("六")
    } else if count == 7 {
        String::from_str("七")
    } else if count == 8 {
        String::from_str("八")
    } else if count == 9 {
        String::from_str("九")
    } else if count == 10 {
        String::from_str("十")
    } else {
        decimal_text(count as u128)
    }
}

} // verus!
