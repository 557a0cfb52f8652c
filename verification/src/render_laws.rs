//! What the text renderings promise: numbers are their decimal numerals, byte lists hold
//! every byte in order, and each rendering writes each field of the chunk.

use crate::png::Header;
use crate::render::{
    background_color_text, byte_items, byte_list, color_space_information_text, decimal,
    digit_str, end_text, gama_text, header_text, image_data_text, last_modification_date_text,
    physical_dimensions_text, text_text,
};
use vstd::prelude::*;
use vstd::utf8::decode_utf8;

verus! {

/// Whether `c` is one of the characters `0` to `9`.
pub open spec fn is_digit(c: char) -> bool {
    48 <= (c as u32) && (c as u32) <= 57
}

/// The value of the digit character `c`.
pub open spec fn digit_value(c: char) -> int {
    (c as u32) - 48
}

/// The number that the digits `s` denote, most significant first.
pub open spec fn numeral_value(s: Seq<char>) -> int
    decreases s.len(),
{
    if s.len() == 0 {
        0
    } else {
        numeral_value(s.drop_last()) * 10 + digit_value(s.last())
    }
}

/// `s` is the decimal numeral of `n`: digits only, no leading zero, denoting `n`.
pub open spec fn is_decimal_numeral(s: Seq<char>, n: nat) -> bool {
    &&& s.len() > 0
    &&& forall|i: int| 0 <= i < s.len() ==> is_digit(#[trigger] s[i])
    &&& numeral_value(s) == n
    &&& (s.len() > 1 ==> digit_value(s[0]) != 0)
}

proof fn lemma_digit_str(d: int)
    requires
        0 <= d < 10,
    ensures
        digit_str(d).len() == 1,
        is_digit(digit_str(d)[0]),
        digit_value(digit_str(d)[0]) == d,
{
    reveal_strlit("0");
    reveal_strlit("1");
    reveal_strlit("2");
    reveal_strlit("3");
    reveal_strlit("4");
    reveal_strlit("5");
    reveal_strlit("6");
    reveal_strlit("7");
    reveal_strlit("8");
    reveal_strlit("9");
}

/// Numbers are rendered as their decimal numeral: digits only, without leading zeros,
/// reading back as the number.
pub proof fn decimal_is_the_numeral(n: nat)
    ensures
        is_decimal_numeral(decimal(n), n),
        n > 0 ==> digit_value(decimal(n)[0]) != 0,
    decreases n,
{
    if n < 10 {
        lemma_digit_str(n as int);
        let s = decimal(n);
        assert(s.drop_last().len() == 0);
        assert(numeral_value(s) == numeral_value(s.drop_last()) * 10 + digit_value(s.last()));
    } else {
        let q = n / 10;
        let r = n % 10;
        decimal_is_the_numeral(q);
        lemma_digit_str(r as int);
        let s = decimal(n);
        let p = decimal(q);
        assert(s == p + digit_str(r as int));
        assert(s.drop_last() =~= p);
        assert(s.last() == digit_str(r as int)[0]);
        assert(n == q * 10 + r);
        assert(numeral_value(s) == numeral_value(s.drop_last()) * 10 + digit_value(s.last()));
        assert(numeral_value(s) == q * 10 + r);
        assert forall|i: int| 0 <= i < s.len() implies is_digit(#[trigger] s[i]) by {
            if i < p.len() {
                assert(s[i] == p[i]);
            }
        }
        assert(s[0] == p[0]);
    }
}

/// The items `parts` separated by `sep`.
pub open spec fn join(parts: Seq<Seq<char>>, sep: Seq<char>) -> Seq<char>
    decreases parts.len(),
{
    if parts.len() == 0 {
        seq![]
    } else if parts.len() == 1 {
        parts[0]
    } else {
        parts[0] + sep + join(parts.drop_first(), sep)
    }
}

/// The decimal numerals of the bytes `v`, in order.
pub open spec fn decimals(v: Seq<u8>) -> Seq<Seq<char>> {
    Seq::new(v.len(), |i: int| decimal(v[i] as nat))
}

proof fn lemma_join_push(parts: Seq<Seq<char>>, sep: Seq<char>, x: Seq<char>)
    requires
        parts.len() > 0,
    ensures
        join(parts.push(x), sep) == join(parts, sep) + sep + x,
    decreases parts.len(),
{
    let pp = parts.push(x);
    if parts.len() == 1 {
        assert(pp.drop_first() =~= seq![x]);
        assert(join(pp.drop_first(), sep) == x);
    } else {
        lemma_join_push(parts.drop_first(), sep, x);
        assert(pp.drop_first() =~= parts.drop_first().push(x));
        assert(join(pp, sep) =~= join(parts, sep) + sep + x);
    }
}

proof fn lemma_byte_items(v: Seq<u8>)
    ensures
        byte_items(v) == join(decimals(v), ", "@),
    decreases v.len(),
{
    if v.len() == 0 {
    } else if v.len() == 1 {
    } else {
        lemma_byte_items(v.drop_last());
        assert(decimals(v) =~= decimals(v.drop_last()).push(decimal(v.last() as nat)));
        lemma_join_push(decimals(v.drop_last()), ", "@, decimal(v.last() as nat));
    }
}

/// A byte list is every byte's decimal numeral, in order, separated by commas and
/// bracketed: it has as many items as there are bytes, the i-th being the i-th byte.
pub proof fn byte_list_lists_every_byte(v: Seq<u8>)
    ensures
        byte_list(v) == "["@ + join(decimals(v), ", "@) + "]"@,
        decimals(v).len() == v.len(),
        forall|i: int|
            0 <= i < v.len() ==> is_decimal_numeral(#[trigger] decimals(v)[i], v[i] as nat),
{
    lemma_byte_items(v);
    assert forall|i: int| 0 <= i < v.len() implies is_decimal_numeral(
        #[trigger] decimals(v)[i],
        v[i] as nat,
    ) by {
        decimal_is_the_numeral(v[i] as nat);
    }
}

/// The bracketed list of the bytes `v`, written out.
pub open spec fn listed(v: Seq<u8>) -> Seq<char> {
    "["@ + join(decimals(v), ", "@) + "]"@
}

/// The header rendering writes each field under its label: numbers as decimal numerals,
/// the CRC as the list of its bytes.
pub proof fn header_text_writes_each_field(h: Header)
    ensures
        header_text(h) == "## Header\nWidth: "@ + decimal(h.width as nat) + "\nLength: "@
            + decimal(h.height as nat) + "\nBit depth: "@ + decimal(h.bit_depth as nat)
            + "\nColor space: "@ + decimal(h.color_space as nat) + "\nCompression method: "@
            + decimal(h.compression_method as nat) + "\nFilter method: "@ + decimal(
            h.filter_method as nat,
        ) + "\nInterlacing: "@ + decimal(h.interlacing as nat) + "\nCRC: "@ + listed(h.crc@),
{
    byte_list_lists_every_byte(h.crc@);
}

/// The gamma rendering writes the value and the CRC.
pub proof fn gama_text_writes_each_field(value: u32, crc: Seq<u8>)
    ensures
        gama_text(value, crc) == "## Gama\nValue: "@ + decimal(value as nat) + "\nCRC: "@
            + listed(crc),
{
    byte_list_lists_every_byte(crc);
}

/// The chromaticities rendering writes the CRC.
pub proof fn color_space_information_text_writes_the_crc(crc: Seq<u8>)
    ensures
        color_space_information_text(crc) == "## Color space information\nContent: TODO\nCRC: "@
            + listed(crc),
{
    byte_list_lists_every_byte(crc);
}

/// The physical dimensions rendering writes the value itself and the CRC.
pub proof fn physical_dimensions_text_writes_each_field(value: u32, crc: Seq<u8>)
    ensures
        physical_dimensions_text(value, crc) == "## Phisical dimensions\nValue: "@ + decimal(
            value as nat,
        ) + "\nCRC: "@ + listed(crc),
{
    byte_list_lists_every_byte(crc);
}

/// The last modification time rendering lists every byte of the value, then the CRC.
pub proof fn last_modification_date_text_writes_each_field(value: Seq<u8>, crc: Seq<u8>)
    ensures
        last_modification_date_text(value, crc) == "## Last modification date\nValue: "@
            + listed(value) + "\nCRC: "@ + listed(crc),
{
    byte_list_lists_every_byte(value);
    byte_list_lists_every_byte(crc);
}

/// The background color rendering lists every byte of the value, then the CRC.
pub proof fn background_color_text_writes_each_field(value: Seq<u8>, crc: Seq<u8>)
    ensures
        background_color_text(value, crc) == "## Background color\nValue: "@ + listed(value)
            + "\nCRC: "@ + listed(crc),
{
    byte_list_lists_every_byte(value);
    byte_list_lists_every_byte(crc);
}

/// The image data rendering writes the CRC.
pub proof fn image_data_text_writes_the_crc(crc: Seq<u8>)
    ensures
        image_data_text(crc) == "## Image data\nCRC: "@ + listed(crc),
{
    byte_list_lists_every_byte(crc);
}

/// The text rendering writes the characters that the content encodes, then the CRC.
pub proof fn text_text_writes_each_field(content: Seq<u8>, crc: Seq<u8>)
    ensures
        text_text(content, crc) == "## Text\nContent: "@ + decode_utf8(content) + "\nCRC: "@
            + listed(crc),
{
    byte_list_lists_every_byte(crc);
}

/// The end rendering writes the CRC.
pub proof fn end_text_writes_the_crc(crc: Seq<u8>)
    ensures
        end_text(crc) == "## End\nCRC: "@ + listed(crc),
{
    byte_list_lists_every_byte(crc);
}

} // verus!
