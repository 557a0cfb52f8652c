//! Text renderings of the header and the decoded chunks, as the reader prints them:
//! numbers in decimal, byte lists as `[a, b, c]`.

use crate::png::{
    BackgroundColor, ColorSpaceInformation, End, Gama, Header, ImageData, LastModificationDate,
    PhysicalDimensions, Text,
};
use vstd::prelude::*;
use vstd::string::StringSliceAdditionalSpecFns;
use vstd::utf8::{decode_utf8, encode_utf8_decode_utf8, valid_utf8};

verus! {

/// The decimal digit `d`.
pub open spec fn digit_str(d: int) -> Seq<char> {
    if d == 0 {
        "0"@
    } else if d == 1 {
        "1"@
    } else if d == 2 {
        "2"@
    } else if d == 3 {
        "3"@
    } else if d == 4 {
        "4"@
    } else if d == 5 {
        "5"@
    } else if d == 6 {
        "6"@
    } else if d == 7 {
        "7"@
    } else if d == 8 {
        "8"@
    } else {
        "9"@
    }
}

/// `n` written in decimal, without leading zeros.
pub open spec fn decimal(n: nat) -> Seq<char>
    decreases n,
{
    if n < 10 {
        digit_str(n as int)
    } else {
        decimal(n / 10) + digit_str((n % 10) as int)
    }
}

/// The bytes `s` in decimal, separated by `", "`.
pub open spec fn byte_items(s: Seq<u8>) -> Seq<char>
    decreases s.len(),
{
    if s.len() == 0 {
        seq![]
    } else if s.len() == 1 {
        decimal(s[0] as nat)
    } else {
        byte_items(s.drop_last()) + ", "@ + decimal(s.last() as nat)
    }
}

/// The bytes `s` as a bracketed list, such as `[1, 2, 3]`.
pub open spec fn byte_list(s: Seq<u8>) -> Seq<char> {
    "["@ + byte_items(s) + "]"@
}

/// Appends the decimal digit `d`.
fn push_digit(out: &mut String, d: u64)
    requires
        d < 10,
    ensures
        final(out)@ == old(out)@ + digit_str(d as int),
{
    if d == 0 {
        out.append("0");
    } else if d == 1 {
        out.append("1");
    } else if d == 2 {
        out.append("2");
    } else if d == 3 {
        out.append("3");
    } else if d == 4 {
        out.append("4");
    } else if d == 5 {
        out.append("5");
    } else if d == 6 {
        out.append("6");
    } else if d == 7 {
        out.append("7");
    } else if d == 8 {
        out.append("8");
    } else {
        out.append("9");
    }
}

/// Appends `n` in decimal.
fn push_decimal(out: &mut String, n: u64)
    ensures
        final(out)@ == old(out)@ + decimal(n as nat),
    decreases n,
{
    let ghost start = out@;
    if n >= 10 {
        push_decimal(out, n / 10);
    }
    push_digit(out, n % 10);
    proof {
        if n >= 10 {
            assert(out@ =~= start + decimal(n as nat));
        } else {
            assert(n % 10 == n);
        }
    }
}

/// Appends `bytes` as a bracketed list.
fn push_byte_list(out: &mut String, bytes: &[u8])
    ensures
        final(out)@ == old(out)@ + byte_list(bytes@),
{
    let ghost start = out@;
    out.append("[");
    let mut i: usize = 0;
    while i < bytes.len()
        invariant
            i <= bytes@.len(),
            out@ == start + "["@ + byte_items(bytes@.take(i as int)),
        decreases bytes@.len() - i,
    {
        let ghost before = out@;
        if i > 0 {
            out.append(", ");
        }
        push_decimal(out, bytes[i] as u64);
        proof {
            let t = bytes@.take(i + 1);
            assert(t.drop_last() =~= bytes@.take(i as int));
            if i == 0 {
                assert(bytes@.take(0) =~= Seq::<u8>::empty());
                assert(out@ =~= start + "["@ + byte_items(t));
            } else {
                assert(out@ =~= start + "["@ + byte_items(t));
            }
        }
        i = i + 1;
    }
    assert(bytes@.take(bytes@.len() as int) =~= bytes@);
    out.append("]");
    assert(out@ =~= start + byte_list(bytes@));
}

/// Calls `core::str::from_utf8`, keeping the string slice on success. The standard library
/// documents that it succeeds exactly when the bytes are valid UTF-8 and that the slice
/// then holds the same bytes; the contract claims this, with validity as vstd defines it.
#[verifier::external_body]
fn utf8_str(bytes: &[u8]) -> (r: Option<&str>)
    ensures
        r is Some <==> valid_utf8(bytes@),
        r matches Some(s) ==> s.spec_bytes() == bytes@,
{
    core::str::from_utf8(bytes).ok()
}

/// The rendering of a header.
pub open spec fn header_text(h: Header) -> Seq<char> {
    "## Header\nWidth: "@ + decimal(h.width as nat) + "\nLength: "@ + decimal(h.height as nat)
        + "\nBit depth: "@ + decimal(h.bit_depth as nat) + "\nColor space: "@ + decimal(
        h.color_space as nat,
    ) + "\nCompression method: "@ + decimal(h.compression_method as nat) + "\nFilter method: "@
        + decimal(h.filter_method as nat) + "\nInterlacing: "@ + decimal(h.interlacing as nat)
        + "\nCRC: "@ + byte_list(h.crc@)
}

/// The rendering of a gamma chunk.
pub open spec fn gama_text(value: u32, crc: Seq<u8>) -> Seq<char> {
    "## Gama\nValue: "@ + decimal(value as nat) + "\nCRC: "@ + byte_list(crc)
}

/// The rendering of a chromaticities chunk.
pub open spec fn color_space_information_text(crc: Seq<u8>) -> Seq<char> {
    "## Color space information\nContent: TODO\nCRC: "@ + byte_list(crc)
}

/// The rendering of a physical dimensions chunk.
pub open spec fn physical_dimensions_text(value: u32, crc: Seq<u8>) -> Seq<char> {
    "## Phisical dimensions\nValue: "@ + decimal(value as nat) + "\nCRC: "@ + byte_list(crc)
}

/// The rendering of a last modification time chunk.
pub open spec fn last_modification_date_text(value: Seq<u8>, crc: Seq<u8>) -> Seq<char> {
    "## Last modification date\nValue: "@ + byte_list(value) + "\nCRC: "@ + byte_list(crc)
}

/// The rendering of a background color chunk.
pub open spec fn background_color_text(value: Seq<u8>, crc: Seq<u8>) -> Seq<char> {
    "## Background color\nValue: "@ + byte_list(value) + "\nCRC: "@ + byte_list(crc)
}

/// The rendering of an image data chunk.
pub open spec fn image_data_text(crc: Seq<u8>) -> Seq<char> {
    "## Image data\nCRC: "@ + byte_list(crc)
}

/// The rendering of a text chunk whose content is valid UTF-8.
pub open spec fn text_text(content: Seq<u8>, crc: Seq<u8>) -> Seq<char> {
    "## Text\nContent: "@ + decode_utf8(content) + "\nCRC: "@ + byte_list(crc)
}

/// The rendering of an end chunk.
pub open spec fn end_text(crc: Seq<u8>) -> Seq<char> {
    "## End\nCRC: "@ + byte_list(crc)
}

impl Header {
    /// Renders the header fields.
    pub fn to_string(&self) -> (s: String)
        ensures
            s@ == header_text(*self),
    {
        let mut s = String::new();
        s.append("## Header\nWidth: ");
        push_decimal(&mut s, self.width as u64);
        s.append("\nLength: ");
        push_decimal(&mut s, self.height as u64);
        s.append("\nBit depth: ");
        push_decimal(&mut s, self.bit_depth as u64);
        s.append("\nColor space: ");
        push_decimal(&mut s, self.color_space as u64);
        s.append("\nCompression method: ");
        push_decimal(&mut s, self.compression_method as u64);
        s.append("\nFilter method: ");
        push_decimal(&mut s, self.filter_method as u64);
        s.append("\nInterlacing: ");
        push_decimal(&mut s, self.interlacing as u64);
        s.append("\nCRC: ");
        push_byte_list(&mut s, &self.crc);
        assert(s@ =~= header_text(*self));
        s
    }
}

impl Gama {
    /// Renders the gamma value and the CRC.
    pub fn to_string(&self) -> (s: String)
        ensures
            s@ == gama_text(self.value, self.crc@),
    {
        let mut s = String::new();
        s.append("## Gama\nValue: ");
        push_decimal(&mut s, self.value as u64);
        s.append("\nCRC: ");
        push_byte_list(&mut s, &self.crc);
        assert(s@ =~= gama_text(self.value, self.crc@));
        s
    }
}

impl ColorSpaceInformation {
    /// Renders the CRC; the content is not rendered.
    pub fn to_string(&self) -> (s: String)
        ensures
            s@ == color_space_information_text(self.crc@),
    {
        let mut s = String::new();
        s.append("## Color space information\nContent: TODO\nCRC: ");
        push_byte_list(&mut s, &self.crc);
        assert(s@ =~= color_space_information_text(self.crc@));
        s
    }
}

impl PhysicalDimensions {
    /// Renders the value and the CRC.
    pub fn to_string(&self) -> (s: String)
        ensures
            s@ == physical_dimensions_text(self.value, self.crc@),
    {
        let mut s = String::new();
        s.append("## Phisical dimensions\nValue: ");
        push_decimal(&mut s, self.value as u64);
        s.append("\nCRC: ");
        push_byte_list(&mut s, &self.crc);
        assert(s@ =~= physical_dimensions_text(self.value, self.crc@));
        s
    }
}

impl LastModificationDate {
    /// Renders the raw value and the CRC.
    pub fn to_string(&self) -> (s: String)
        ensures
            s@ == last_modification_date_text(self.value@, self.crc@),
    {
        let mut s = String::new();
        s.append("## Last modification date\nValue: ");
        push_byte_list(&mut s, self.value.as_slice());
        s.append("\nCRC: ");
        push_byte_list(&mut s, &self.crc);
        assert(s@ =~= last_modification_date_text(self.value@, self.crc@));
        s
    }
}

impl BackgroundColor {
    /// Renders the raw value and the CRC.
    pub fn to_string(&self) -> (s: String)
        ensures
            s@ == background_color_text(self.value@, self.crc@),
    {
        let mut s = String::new();
        s.append("## Background color\nValue: ");
        push_byte_list(&mut s, self.value.as_slice());
        s.append("\nCRC: ");
        push_byte_list(&mut s, &self.crc);
        assert(s@ =~= background_color_text(self.value@, self.crc@));
        s
    }
}

impl ImageData {
    /// Renders the CRC.
    pub fn to_string(&self) -> (s: String)
        ensures
            s@ == image_data_text(self.crc@),
    {
        let mut s = String::new();
        s.append("## Image data\nCRC: ");
        push_byte_list(&mut s, &self.crc);
        assert(s@ =~= image_data_text(self.crc@));
        s
    }
}

impl Text {
    /// Whether the text can be rendered: its content is valid UTF-8.
    pub fn content_is_utf8(&self) -> (r: bool)
        ensures
            r == valid_utf8(self.content@),
    {
        utf8_str(self.content.as_slice()).is_some()
    }

    /// Renders the content, read as UTF-8, and the CRC.
    pub fn to_string(&self) -> (s: String)
        requires
            valid_utf8(self.content@),
        ensures
            s@ == text_text(self.content@, self.crc@),
    {
        let mut s = String::new();
        s.append("## Text\nContent: ");
        match utf8_str(self.content.as_slice()) {
            Some(c) => {
                proof {
                    encode_utf8_decode_utf8(c@);
                }
                s.append(c);
            },
            None => {},
        }
        s.append("\nCRC: ");
        push_byte_list(&mut s, &self.crc);
        assert(s@ =~= text_text(self.content@, self.crc@));
        s
    }
}

impl End {
    /// Renders the CRC.
    pub fn to_string(&self) -> (s: String)
        ensures
            s@ == end_text(self.crc@),
    {
        let mut s = String::new();
        s.append("## End\nCRC: ");
        push_byte_list(&mut s, &self.crc);
        assert(s@ =~= end_text(self.crc@));
        s
    }
}

} // verus!
