//! Decoding of the card's public-data TLV format.
//!
//! A card file is a four-byte container header (two tag bytes, then a
//! big-endian payload length) followed by fields, each with a two-byte tag, a
//! two-byte big-endian length and the value bytes.
use crate::data::{
    digit_value, is_iso_date, optional_iso_date, ModifiableData, ModifiableView, NonModifiableData, NonModifiableView,
};
use crate::error::{plain_error, Error, ErrorKind, ErrorView};
use crate::strings::{
    all_ascii_digits, chars_of, dec_digit, decode_utf8_chars, hex4, is_ascii_digit,
    is_ascii_digits_of_len, is_padding, is_unicode_whitespace, lemma_trim_back_prefix,
    lemma_trim_front_suffix, lemma_trim_piece,
    push_hex4, push_str, string_from_chars, trim, trim_back, trim_chars, trim_front, Padding,
};
use vstd::prelude::*;
use vstd::utf8::{decode_utf8, valid_utf8};

verus! {

/// The big-endian value of the two bytes `hi`, `lo`.
pub open spec fn be16(hi: u8, lo: u8) -> int {
    hi as int * 256 + lo as int
}

/// An `InvalidData` error whose message embeds `tag` in hexadecimal.
pub open spec fn tag_error(prefix: Seq<char>, tag: u16, suffix: Seq<char>) -> ErrorView {
    plain_error(ErrorKind::InvalidData, prefix + hex4(tag) + suffix)
}

/// Walks the fields between `offset` and `end`, remembering the value range of
/// the field tagged `wanted`. Every field boundary up to `end` is checked, also
/// after the wanted field was found, and a second `wanted` field is an error.
pub open spec fn scan_fields(
    data: Seq<u8>,
    offset: int,
    end: int,
    wanted: u16,
    found: Option<(int, int)>,
) -> Result<Option<(int, int)>, ErrorView>
    decreases end - offset,
{
    if offset >= end {
        Ok(found)
    } else if offset + 4 > end {
        Err(plain_error(ErrorKind::InvalidData, "Truncated field header"@))
    } else {
        let tag = be16(data[offset], data[offset + 1]) as u16;
        let value_start = offset + 4;
        let value_end = value_start + be16(data[offset + 2], data[offset + 3]);
        if value_end > end {
            Err(tag_error("Field "@, tag, " is truncated"@))
        } else if tag == wanted && found is Some {
            Err(tag_error("Duplicate field "@, tag, Seq::empty()))
        } else {
            scan_fields(
                data,
                value_end,
                end,
                wanted,
                if tag == wanted {
                    Some((value_start, value_end))
                } else {
                    found
                },
            )
        }
    }
}

/// The end of the payload that the container header of `data` announces.
pub open spec fn container_end(data: Seq<u8>) -> int {
    4 + be16(data[2], data[3])
}

/// The value of the field tagged `wanted` in the container `data`, or the
/// structural error that makes the container unusable.
pub open spec fn field_spec(data: Seq<u8>, wanted: u16) -> Result<Option<Seq<u8>>, ErrorView> {
    if data.len() < 4 {
        Err(plain_error(ErrorKind::InvalidData, "Truncated card container"@))
    } else if container_end(data) > data.len() {
        Err(plain_error(ErrorKind::InvalidData, "Card container exceeds available data"@))
    } else {
        match scan_fields(data, 4, container_end(data), wanted, None) {
            Err(e) => Err(e),
            Ok(None) => Ok(None),
            Ok(Some(range)) => Ok(Some(data.subrange(range.0, range.1))),
        }
    }
}

/// Text stored in a field: UTF-8, without NUL padding and surrounding whitespace.
/// An empty result counts as absent.
pub open spec fn text_spec(data: Seq<u8>, tag: u16) -> Result<Option<Seq<char>>, ErrorView> {
    match field_spec(data, tag) {
        Err(e) => Err(e),
        Ok(None) => Ok(None),
        Ok(Some(v)) => if !valid_utf8(v) {
            Err(tag_error("Field "@, tag, " is not valid UTF-8"@))
        } else {
            let t = trim(trim(decode_utf8(v), Padding::Nul), Padding::Whitespace);
            if t.len() == 0 {
                Ok(None)
            } else {
                Ok(Some(t))
            }
        },
    }
}

/// A field value that carries no information: empty, or only `00`/`FF` filler.
pub open spec fn is_blank(v: Seq<u8>) -> bool {
    forall|i: int| 0 <= i < v.len() ==> (#[trigger] v[i] == 0 || v[i] == 0xFF)
}

/// Every byte holds two decimal digits, one per nibble.
pub open spec fn is_packed_bcd(v: Seq<u8>) -> bool {
    forall|i: int| 0 <= i < v.len() ==> (#[trigger] v[i] / 16 <= 9 && v[i] % 16 <= 9)
}

/// The digits of a packed-BCD value, high nibble first.
pub open spec fn bcd_digits(v: Seq<u8>) -> Seq<char>
    decreases v.len(),
{
    if v.len() == 0 {
        Seq::empty()
    } else {
        bcd_digits(v.drop_last()) + seq![
            dec_digit((v.last() / 16) as int),
            dec_digit((v.last() % 16) as int),
        ]
    }
}

/// Packed BCD has two digits per byte.
pub proof fn lemma_bcd_digits_len(v: Seq<u8>)
    ensures
        bcd_digits(v).len() == 2 * v.len(),
    decreases v.len(),
{
    if v.len() > 0 {
        lemma_bcd_digits_len(v.drop_last());
    }
}

/// A packed-BCD code field as its decimal digits, leading zeroes kept.
pub open spec fn bcd_spec(data: Seq<u8>, tag: u16) -> Result<Option<Seq<char>>, ErrorView> {
    match field_spec(data, tag) {
        Err(e) => Err(e),
        Ok(None) => Ok(None),
        Ok(Some(v)) => if is_blank(v) {
            Ok(None)
        } else if !is_packed_bcd(v) {
            Err(tag_error("Field "@, tag, " is not packed BCD"@))
        } else {
            Ok(Some(bcd_digits(v)))
        },
    }
}

/// A Gregorian leap year.
pub open spec fn is_leap_year(year: int) -> bool {
    year % 4 == 0 && (year % 100 != 0 || year % 400 == 0)
}

/// Days in `month` of `year`; 0 for a month outside 1..=12.
pub open spec fn days_in_month(year: int, month: int) -> int {
    if month == 1 || month == 3 || month == 5 || month == 7 || month == 8 || month == 10 || month
        == 12 {
        31
    } else if month == 4 || month == 6 || month == 9 || month == 11 {
        30
    } else if month == 2 {
        if is_leap_year(year) {
            29
        } else {
            28
        }
    } else {
        0
    }
}

/// A calendar date: a year other than 0 and a day that exists in its month.
pub open spec fn is_calendar_date(year: int, month: int, day: int) -> bool {
    year != 0 && 1 <= day <= days_in_month(year, month)
}

/// The value of one packed-BCD byte.
pub open spec fn bcd_byte_value(b: u8) -> int {
    (b / 16) as int * 10 + (b % 16) as int
}

/// `YYYY-MM-DD` from eight digits.
pub open spec fn iso_from_digits(d: Seq<char>) -> Seq<char> {
    d.subrange(0, 4) + seq!['-'] + d.subrange(4, 6) + seq!['-'] + d.subrange(6, 8)
}

/// A four-byte packed-BCD date (century, year, month, day) as `YYYY-MM-DD`.
pub open spec fn date_spec(data: Seq<u8>, tag: u16) -> Result<Option<Seq<char>>, ErrorView> {
    match field_spec(data, tag) {
        Err(e) => Err(e),
        Ok(None) => Ok(None),
        Ok(Some(v)) => if is_blank(v) {
            Ok(None)
        } else if v.len() != 4 {
            Err(tag_error("Date "@, tag, " is not four bytes"@))
        } else if !is_packed_bcd(v) {
            Err(tag_error("Date "@, tag, " is not packed BCD"@))
        } else if !is_calendar_date(
            bcd_byte_value(v[0]) * 100 + bcd_byte_value(v[1]),
            bcd_byte_value(v[2]),
            bcd_byte_value(v[3]),
        ) {
            Err(tag_error("Date "@, tag, " is not a calendar date"@))
        } else {
            Ok(Some(iso_from_digits(bcd_digits(v))))
        },
    }
}

/// A required text field: absent text is an error naming `label`.
pub open spec fn required_text_spec(data: Seq<u8>, tag: u16, label: Seq<char>) -> Result<
    Seq<char>,
    ErrorView,
> {
    match text_spec(data, tag) {
        Err(e) => Err(e),
        Ok(None) => Err(
            plain_error(
                ErrorKind::InvalidData,
                "Required "@ + label + " field "@ + hex4(tag) + " is missing"@,
            ),
        ),
        Ok(Some(t)) => Ok(t),
    }
}

/// A required identifier of exactly `len` ASCII digits.
pub open spec fn required_digits_spec(data: Seq<u8>, tag: u16, label: Seq<char>, len: nat) -> Result<
    Seq<char>,
    ErrorView,
> {
    match required_text_spec(data, tag, label) {
        Err(e) => Err(e),
        Ok(t) => if t.len() == len && all_ascii_digits(t) {
            Ok(t)
        } else {
            Err(
                plain_error(
                    ErrorKind::InvalidData,
                    label + " field "@ + hex4(tag) + " has an invalid format"@,
                ),
            )
        },
    }
}

/// `r` reports the same outcome as the model `s`.
pub open spec fn bytes_outcome(
    r: Result<Option<&[u8]>, Error>,
    s: Result<Option<Seq<u8>>, ErrorView>,
) -> bool {
    match r {
        Ok(Some(v)) => s == Ok::<Option<Seq<u8>>, ErrorView>(Some(v@)),
        Ok(None) => s == Ok::<Option<Seq<u8>>, ErrorView>(None),
        Err(e) => s == Err::<Option<Seq<u8>>, ErrorView>(e@),
    }
}

/// `r` reports the same outcome as the model `s`.
pub open spec fn text_outcome(
    r: Result<Option<String>, Error>,
    s: Result<Option<Seq<char>>, ErrorView>,
) -> bool {
    match r {
        Ok(Some(v)) => s == Ok::<Option<Seq<char>>, ErrorView>(Some(v@)),
        Ok(None) => s == Ok::<Option<Seq<char>>, ErrorView>(None),
        Err(e) => s == Err::<Option<Seq<char>>, ErrorView>(e@),
    }
}

/// `r` reports the same outcome as the model `s`.
pub open spec fn string_outcome(r: Result<String, Error>, s: Result<Seq<char>, ErrorView>) -> bool {
    match r {
        Ok(v) => s == Ok::<Seq<char>, ErrorView>(v@),
        Err(e) => s == Err::<Seq<char>, ErrorView>(e@),
    }
}

/// An `InvalidData` error whose message is `prefix`, `tag` in hexadecimal, then `suffix`.
pub fn error_with_tag(prefix: &str, tag: u16, suffix: &str) -> (e: Error)
    ensures
        e@ == tag_error(prefix@, tag, suffix@),
{
    let mut m = chars_of(prefix);
    push_hex4(&mut m, tag);
    push_str(&mut m, suffix);
    Error::new(ErrorKind::InvalidData, string_from_chars(m.as_slice()))
}

/// `found` with its bounds as mathematical integers.
pub open spec fn int_range(found: Option<(usize, usize)>) -> Option<(int, int)> {
    match found {
        Some(r) => Some((r.0 as int, r.1 as int)),
        None => None,
    }
}

/// Returns the value of the field tagged `wanted_tag`, after checking the
/// boundaries of every field in the container.
#[verifier::rlimit(40)]
pub fn field(data: &[u8], wanted_tag: u16) -> (r: Result<Option<&[u8]>, Error>)
    ensures
        bytes_outcome(r, field_spec(data@, wanted_tag)),
{
    if data.len() < 4 {
        return Err(Error::from_str(ErrorKind::InvalidData, "Truncated card container"));
    }
    let end: usize = 4 + (data[2] as usize * 256 + data[3] as usize);
    if end > data.len() {
        return Err(
            Error::from_str(ErrorKind::InvalidData, "Card container exceeds available data"),
        );
    }
    let mut found: Option<(usize, usize)> = None;
    let mut offset: usize = 4;
    while offset < end
        invariant
            4 <= offset <= end <= data@.len(),
            end <= 65539,
            end == container_end(data@),
            found matches Some(r) ==> r.0 <= r.1 <= end,
            scan_fields(data@, 4, end as int, wanted_tag, None) == scan_fields(
                data@,
                offset as int,
                end as int,
                wanted_tag,
                int_range(found),
            ),
        decreases end - offset,
    {
        if offset + 4 > end {
            return Err(Error::from_str(ErrorKind::InvalidData, "Truncated field header"));
        }
        let tag: u16 = (data[offset] as u16) * 256 + data[offset + 1] as u16;
        let length: usize = data[offset + 2] as usize * 256 + data[offset + 3] as usize;
        let value_start = offset + 4;
        let value_end = value_start + length;
        assert(tag == be16(data@[offset as int], data@[offset + 1]) as u16);
        assert(value_end == offset + 4 + be16(data@[offset + 2], data@[offset + 3]));
        let ghost before = scan_fields(data@, offset as int, end as int, wanted_tag, int_range(found));
        if value_end > end {
            return Err(error_with_tag("Field ", tag, " is truncated"));
        }
        if tag == wanted_tag {
            if found.is_some() {
                assert(tag_error("Duplicate field "@, tag, ""@) == tag_error("Duplicate field "@, tag, Seq::empty())) by {
                    reveal_strlit("");
                    assert(""@ =~= Seq::<char>::empty());
                }
                return Err(error_with_tag("Duplicate field ", tag, ""));
            }
            found = Some((value_start, value_end));
        }
        assert(before == scan_fields(data@, value_end as int, end as int, wanted_tag, int_range(found)));
        offset = value_end;
    }
    match found {
        Some((start, stop)) => Ok(Some(&data[start..stop])),
        None => Ok(None),
    }
}

/// Decodes a UTF-8 text field, removing NUL padding and surrounding whitespace.
/// Empty text is reported as absent.
pub fn text(data: &[u8], tag: u16) -> (r: Result<Option<String>, Error>)
    ensures
        text_outcome(r, text_spec(data@, tag)),
{
    let value = match field(data, tag) {
        Err(e) => return Err(e),
        Ok(None) => return Ok(None),
        Ok(Some(v)) => v,
    };
    let chars = match decode_utf8_chars(value) {
        Some(cs) => cs,
        None => return Err(error_with_tag("Field ", tag, " is not valid UTF-8")),
    };
    let unpadded = trim_chars(chars.as_slice(), Padding::Nul);
    let trimmed = trim_chars(unpadded.as_slice(), Padding::Whitespace);
    if trimmed.len() == 0 {
        Ok(None)
    } else {
        Ok(Some(string_from_chars(trimmed.as_slice())))
    }
}

/// A text field that must be present; `label` names it in the error.
pub fn required_text(data: &[u8], tag: u16, label: &str) -> (r: Result<String, Error>)
    ensures
        string_outcome(r, required_text_spec(data@, tag, label@)),
{
    match text(data, tag) {
        Err(e) => Err(e),
        Ok(Some(t)) => Ok(t),
        Ok(None) => {
            let mut m = chars_of("Required ");
            push_str(&mut m, label);
            push_str(&mut m, " field ");
            push_hex4(&mut m, tag);
            push_str(&mut m, " is missing");
            assert(m@ =~= "Required "@ + label@ + " field "@ + hex4(tag) + " is missing"@);
            Err(Error::new(ErrorKind::InvalidData, string_from_chars(m.as_slice())))
        },
    }
}

/// A required identifier of exactly `expected_length` ASCII digits. The error
/// names the field by `label` and never repeats the value.
pub fn required_ascii_digits(data: &[u8], tag: u16, label: &str, expected_length: usize) -> (r:
    Result<String, Error>)
    ensures
        string_outcome(r, required_digits_spec(data@, tag, label@, expected_length as nat)),
{
    let value = match required_text(data, tag, label) {
        Err(e) => return Err(e),
        Ok(v) => v,
    };
    let chars = chars_of(value.as_str());
    if !is_ascii_digits_of_len(chars.as_slice(), expected_length) {
        let mut m = chars_of(label);
        push_str(&mut m, " field ");
        push_hex4(&mut m, tag);
        push_str(&mut m, " has an invalid format");
        assert(m@ =~= label@ + " field "@ + hex4(tag) + " has an invalid format"@);
        return Err(Error::new(ErrorKind::InvalidData, string_from_chars(m.as_slice())));
    }
    Ok(value)
}

/// `value` is empty or holds only `00`/`FF` filler bytes.
pub fn blank_value(value: &[u8]) -> (b: bool)
    ensures
        b == is_blank(value@),
{
    let mut i: usize = 0;
    while i < value.len()
        invariant
            i <= value@.len(),
            forall|j: int| 0 <= j < i ==> (#[trigger] value@[j] == 0 || value@[j] == 0xFF),
        decreases value@.len() - i,
    {
        if value[i] != 0 && value[i] != 0xFF {
            return false;
        }
        i = i + 1;
    }
    true
}

/// The decimal digits of a packed-BCD value, or `None` when a nibble exceeds 9.
pub fn bcd_chars(value: &[u8]) -> (r: Option<Vec<char>>)
    ensures
        r is Some <==> is_packed_bcd(value@),
        r matches Some(cs) ==> cs@ == bcd_digits(value@),
{
    let mut out: Vec<char> = Vec::new();
    let mut i: usize = 0;
    while i < value.len()
        invariant
            i <= value@.len(),
            is_packed_bcd(value@.take(i as int)),
            out@ == bcd_digits(value@.take(i as int)),
        decreases value@.len() - i,
    {
        let byte = value[i];
        let high = byte / 16;
        let low = byte % 16;
        if high > 9 || low > 9 {
            assert(!is_packed_bcd(value@)) by {
                assert(value@[i as int] == byte);
            }
            return None;
        }
        let ghost prev = value@.take(i as int);
        assert(value@.take(i + 1).drop_last() =~= prev);
        assert(value@.take(i + 1).last() == byte);
        out.push((48u8 + high) as char);
        out.push((48u8 + low) as char);
        i = i + 1;
        assert(out@ =~= bcd_digits(value@.take(i as int)));
        assert(is_packed_bcd(value@.take(i as int))) by {
            assert forall|j: int| 0 <= j < i implies #[trigger] value@.take(i as int)[j] / 16 <= 9
                && value@.take(i as int)[j] % 16 <= 9 by {
                if j < i - 1 {
                    assert(value@.take(i as int)[j] == prev[j]);
                }
            }
        }
    }
    assert(value@.take(value@.len() as int) =~= value@);
    Some(out)
}

/// Decodes a packed-BCD code field into its decimal digits, keeping leading
/// zeroes. Empty or filler-only values are absent.
pub fn bcd(data: &[u8], tag: u16) -> (r: Result<Option<String>, Error>)
    ensures
        text_outcome(r, bcd_spec(data@, tag)),
{
    let value = match field(data, tag) {
        Err(e) => return Err(e),
        Ok(None) => return Ok(None),
        Ok(Some(v)) => v,
    };
    if blank_value(value) {
        return Ok(None);
    }
    match bcd_chars(value) {
        Some(digits) => Ok(Some(string_from_chars(digits.as_slice()))),
        None => Err(error_with_tag("Field ", tag, " is not packed BCD")),
    }
}

/// Days in `month` of `year`; 0 for a month outside 1..=12.
pub fn days_in_month_of(year: u16, month: u8) -> (d: u8)
    ensures
        d == days_in_month(year as int, month as int),
{
    if month == 1 || month == 3 || month == 5 || month == 7 || month == 8 || month == 10 || month
        == 12 {
        31
    } else if month == 4 || month == 6 || month == 9 || month == 11 {
        30
    } else if month == 2 {
        if year % 4 == 0 && (year % 100 != 0 || year % 400 == 0) {
            29
        } else {
            28
        }
    } else {
        0
    }
}

/// Decodes a four-byte packed-BCD date into `YYYY-MM-DD`, rejecting days that
/// do not exist in the calendar. Empty or filler-only values are absent.
pub fn date(data: &[u8], tag: u16) -> (r: Result<Option<String>, Error>)
    ensures
        text_outcome(r, date_spec(data@, tag)),
{
    let value = match field(data, tag) {
        Err(e) => return Err(e),
        Ok(None) => return Ok(None),
        Ok(Some(v)) => v,
    };
    if blank_value(value) {
        return Ok(None);
    }
    if value.len() != 4 {
        return Err(error_with_tag("Date ", tag, " is not four bytes"));
    }
    let digits = match bcd_chars(value) {
        Some(d) => d,
        None => return Err(error_with_tag("Date ", tag, " is not packed BCD")),
    };
    proof {
        lemma_bcd_digits_len(value@);
    }
    let year: u16 = (value[0] / 16) as u16 * 1000 + (value[0] % 16) as u16 * 100 + (value[1]
        / 16) as u16 * 10 + (value[1] % 16) as u16;
    let month: u8 = (value[2] / 16) * 10 + value[2] % 16;
    let day: u8 = (value[3] / 16) * 10 + value[3] % 16;
    if year == 0 || day == 0 || day > days_in_month_of(year, month) {
        return Err(error_with_tag("Date ", tag, " is not a calendar date"));
    }
    let mut iso: Vec<char> = Vec::new();
    iso.push(digits[0]);
    iso.push(digits[1]);
    iso.push(digits[2]);
    iso.push(digits[3]);
    iso.push('-');
    iso.push(digits[4]);
    iso.push(digits[5]);
    iso.push('-');
    iso.push(digits[6]);
    iso.push(digits[7]);
    proof {
        let v = value@;
        assert(v[0] / 16 <= 9 && v[0] % 16 <= 9 && v[1] / 16 <= 9 && v[1] % 16 <= 9);
        assert(iso@ =~= iso_from_digits(bcd_digits(v)));
    }
    Ok(Some(string_from_chars(iso.as_slice())))
}


/// How a field's value bytes are encoded.
#[derive(Clone, Copy, Debug, PartialEq, Eq, Structural)]
pub enum FieldCoding {
    /// UTF-8 text.
    Text,
    /// Packed-BCD code digits.
    Bcd,
    /// Four-byte packed-BCD date.
    Date,
}

/// The decoded value of the field tagged `tag` under `coding`.
pub open spec fn coded_field_spec(data: Seq<u8>, tag: u16, coding: FieldCoding) -> Result<
    Option<Seq<char>>,
    ErrorView,
> {
    match coding {
        FieldCoding::Text => text_spec(data, tag),
        FieldCoding::Bcd => bcd_spec(data, tag),
        FieldCoding::Date => date_spec(data, tag),
    }
}

/// The values of the fields of `layout`, in order, or the first decoding error.
pub open spec fn decode_all(data: Seq<u8>, layout: Seq<(u16, FieldCoding)>) -> Result<
    Seq<Option<Seq<char>>>,
    ErrorView,
>
    decreases layout.len(),
{
    if layout.len() == 0 {
        Ok(Seq::empty())
    } else {
        match decode_all(data, layout.drop_last()) {
            Err(e) => Err(e),
            Ok(values) => match coded_field_spec(data, layout.last().0, layout.last().1) {
                Err(e) => Err(e),
                Ok(v) => Ok(values.push(v)),
            },
        }
    }
}

/// A decoded layout has one value per field.
pub proof fn lemma_decode_all_len(data: Seq<u8>, layout: Seq<(u16, FieldCoding)>)
    ensures
        decode_all(data, layout) matches Ok(values) ==> values.len() == layout.len(),
    decreases layout.len(),
{
    if layout.len() > 0 {
        lemma_decode_all_len(data, layout.drop_last());
    }
}

/// Decodes the field tagged `tag` under `coding`.
pub fn coded_field(data: &[u8], tag: u16, coding: FieldCoding) -> (r: Result<Option<String>, Error>)
    ensures
        text_outcome(r, coded_field_spec(data@, tag, coding)),
{
    match coding {
        FieldCoding::Text => text(data, tag),
        FieldCoding::Bcd => bcd(data, tag),
        FieldCoding::Date => date(data, tag),
    }
}

/// Decodes every field of `layout` in order, stopping at the first error.
pub fn decode_layout(data: &[u8], layout: &Vec<(u16, FieldCoding)>) -> (r: Result<
    Vec<Option<String>>,
    Error,
>)
    ensures
        match r {
            Ok(v) => decode_all(data@, layout@) == Ok::<Seq<Option<Seq<char>>>, ErrorView>(
                v.deep_view(),
            ),
            Err(e) => decode_all(data@, layout@) == Err::<Seq<Option<Seq<char>>>, ErrorView>(e@),
        },
{
    let mut values: Vec<Option<String>> = Vec::new();
    let mut i: usize = 0;
    assert(layout@.take(0) =~= Seq::<(u16, FieldCoding)>::empty());
    assert(values.deep_view() =~= Seq::<Option<Seq<char>>>::empty());
    while i < layout.len()
        invariant
            i <= layout@.len(),
            values@.len() == i,
            decode_all(data@, layout@.take(i as int)) == Ok::<Seq<Option<Seq<char>>>, ErrorView>(
                values.deep_view(),
            ),
        decreases layout@.len() - i,
    {
        let (tag, coding) = layout[i];
        assert(layout@.take(i + 1).drop_last() =~= layout@.take(i as int));
        assert(layout@.take(i + 1).last() == (tag, coding));
        let ghost before = values@;
        match coded_field(data, tag, coding) {
            Err(e) => {
                proof {
                    lemma_decode_all_prefix_error(data@, layout@, i + 1);
                }
                return Err(e);
            },
            Ok(v) => {
                values.push(v);
                proof {
                    assert forall|k: int| 0 <= k < i + 1 implies #[trigger] values.deep_view()[k]
                        == before.map_values(|x: Option<String>| x.deep_view()).push(
                        values@[i as int].deep_view(),
                    )[k] by {
                        if k < i {
                            assert(values@[k] == before[k]);
                        }
                    }
                    assert(values.deep_view() =~= decode_all(
                        data@,
                        layout@.take(i as int),
                    )->Ok_0.push(values@[i as int].deep_view()));
                }
            },
        }
        i = i + 1;
    }
    assert(layout@.take(layout@.len() as int) =~= layout@);
    Ok(values)
}

/// An error in the first `n` fields of a layout is the error of the whole layout.
pub proof fn lemma_decode_all_prefix_error(
    data: Seq<u8>,
    layout: Seq<(u16, FieldCoding)>,
    n: int,
)
    requires
        0 <= n <= layout.len(),
        decode_all(data, layout.take(n)) is Err,
    ensures
        decode_all(data, layout) == decode_all(data, layout.take(n)),
    decreases layout.len() - n,
{
    if n < layout.len() {
        assert(layout.take(n + 1).drop_last() =~= layout.take(n));
        lemma_decode_all_prefix_error(data, layout, n + 1);
    } else {
        assert(layout.take(n) =~= layout);
    }
}

/// The core identity fields of the non-modifiable file.
pub open spec fn decode_non_modifiable_spec(data: Seq<u8>) -> Result<NonModifiableView, ErrorView> {
    match decode_all(data, non_modifiable_layout_spec()) {
        Ok(values) => Ok(NonModifiableView::from_values(values)),
        Err(e) => Err(e),
    }
}

/// The extended fields of the modifiable file.
pub open spec fn decode_modifiable_spec(data: Seq<u8>) -> Result<ModifiableView, ErrorView> {
    match decode_all(data, modifiable_layout_spec()) {
        Ok(values) => Ok(ModifiableView::from_values(values)),
        Err(e) => Err(e),
    }
}

/// The fields of the core identity file, in order, with their codings.
pub open spec fn non_modifiable_layout_spec() -> Seq<(u16, FieldCoding)> {
    seq![
        (0xE305u16, FieldCoding::Text),
        (0x4306u16, FieldCoding::Date),
        (0x4307u16, FieldCoding::Date),
        (0xA308u16, FieldCoding::Text),
        (0xA309u16, FieldCoding::Text),
        (0xE30Au16, FieldCoding::Text),
        (0xE30Bu16, FieldCoding::Text),
        (0xE30Cu16, FieldCoding::Text),
        (0xA30Du16, FieldCoding::Text),
        (0xE336u16, FieldCoding::Text),
        (0xE30Eu16, FieldCoding::Text),
        (0x430Fu16, FieldCoding::Date),
        (0xA337u16, FieldCoding::Text),
        (0xE338u16, FieldCoding::Text),
    ]
}

/// The fields of the core identity file, in order, with their codings.
pub fn non_modifiable_layout() -> (r: Vec<(u16, FieldCoding)>)
    ensures
        r@ == non_modifiable_layout_spec(),
{
    let r = vec![
        (0xE305u16, FieldCoding::Text),
        (0x4306u16, FieldCoding::Date),
        (0x4307u16, FieldCoding::Date),
        (0xA308u16, FieldCoding::Text),
        (0xA309u16, FieldCoding::Text),
        (0xE30Au16, FieldCoding::Text),
        (0xE30Bu16, FieldCoding::Text),
        (0xE30Cu16, FieldCoding::Text),
        (0xA30Du16, FieldCoding::Text),
        (0xE336u16, FieldCoding::Text),
        (0xE30Eu16, FieldCoding::Text),
        (0x430Fu16, FieldCoding::Date),
        (0xA337u16, FieldCoding::Text),
        (0xE338u16, FieldCoding::Text),
    ];
    assert(r@ =~= non_modifiable_layout_spec());
    r
}

/// The fields of the extended data file, in order, with their codings.
pub open spec fn modifiable_layout_spec() -> Seq<(u16, FieldCoding)> {
    seq![
        (0x2515u16, FieldCoding::Bcd),
        (0xA539u16, FieldCoding::Text),
        (0xE53Au16, FieldCoding::Text),
        (0xE520u16, FieldCoding::Text),
        (0xA521u16, FieldCoding::Text),
        (0xE522u16, FieldCoding::Text),
        (0x2523u16, FieldCoding::Bcd),
        (0xA524u16, FieldCoding::Text),
        (0xE525u16, FieldCoding::Text),
        (0x2516u16, FieldCoding::Bcd),
        (0xE517u16, FieldCoding::Text),
        (0x2518u16, FieldCoding::Bcd),
        (0x2519u16, FieldCoding::Bcd),
        (0xA51Au16, FieldCoding::Text),
        (0x251Bu16, FieldCoding::Bcd),
        (0xE51Cu16, FieldCoding::Text),
        (0x451Du16, FieldCoding::Date),
        (0xE526u16, FieldCoding::Text),
        (0x2527u16, FieldCoding::Bcd),
        (0xE528u16, FieldCoding::Text),
        (0xA53Bu16, FieldCoding::Text),
        (0xE53Cu16, FieldCoding::Text),
        (0x4529u16, FieldCoding::Date),
        (0x452Au16, FieldCoding::Date),
        (0x252Bu16, FieldCoding::Bcd),
        (0xA53Du16, FieldCoding::Text),
        (0xE53Eu16, FieldCoding::Text),
        (0xA52Cu16, FieldCoding::Text),
        (0xE52Du16, FieldCoding::Text),
        (0x252Eu16, FieldCoding::Bcd),
        (0xA53Fu16, FieldCoding::Text),
        (0xE540u16, FieldCoding::Text),
        (0xA52Fu16, FieldCoding::Text),
        (0xE530u16, FieldCoding::Text),
        (0x4531u16, FieldCoding::Date),
        (0xA510u16, FieldCoding::Text),
        (0xE511u16, FieldCoding::Text),
    ]
}

/// The fields of the extended data file, in order, with their codings.
pub fn modifiable_layout() -> (r: Vec<(u16, FieldCoding)>)
    ensures
        r@ == modifiable_layout_spec(),
{
    let r = vec![
        (0x2515u16, FieldCoding::Bcd),
        (0xA539u16, FieldCoding::Text),
        (0xE53Au16, FieldCoding::Text),
        (0xE520u16, FieldCoding::Text),
        (0xA521u16, FieldCoding::Text),
        (0xE522u16, FieldCoding::Text),
        (0x2523u16, FieldCoding::Bcd),
        (0xA524u16, FieldCoding::Text),
        (0xE525u16, FieldCoding::Text),
        (0x2516u16, FieldCoding::Bcd),
        (0xE517u16, FieldCoding::Text),
        (0x2518u16, FieldCoding::Bcd),
        (0x2519u16, FieldCoding::Bcd),
        (0xA51Au16, FieldCoding::Text),
        (0x251Bu16, FieldCoding::Bcd),
        (0xE51Cu16, FieldCoding::Text),
        (0x451Du16, FieldCoding::Date),
        (0xE526u16, FieldCoding::Text),
        (0x2527u16, FieldCoding::Bcd),
        (0xE528u16, FieldCoding::Text),
        (0xA53Bu16, FieldCoding::Text),
        (0xE53Cu16, FieldCoding::Text),
        (0x4529u16, FieldCoding::Date),
        (0x452Au16, FieldCoding::Date),
        (0x252Bu16, FieldCoding::Bcd),
        (0xA53Du16, FieldCoding::Text),
        (0xE53Eu16, FieldCoding::Text),
        (0xA52Cu16, FieldCoding::Text),
        (0xE52Du16, FieldCoding::Text),
        (0x252Eu16, FieldCoding::Bcd),
        (0xA53Fu16, FieldCoding::Text),
        (0xE540u16, FieldCoding::Text),
        (0xA52Fu16, FieldCoding::Text),
        (0xE530u16, FieldCoding::Text),
        (0x4531u16, FieldCoding::Date),
        (0xA510u16, FieldCoding::Text),
        (0xE511u16, FieldCoding::Text),
    ];
    assert(r@ =~= modifiable_layout_spec());
    r
}


/// Decodes the core identity file.
pub fn decode_non_modifiable(data: &[u8]) -> (r: Result<NonModifiableData, Error>)
    ensures
        match r {
            Ok(d) => decode_non_modifiable_spec(data@) == Ok::<NonModifiableView, ErrorView>(d@),
            Err(e) => decode_non_modifiable_spec(data@) == Err::<NonModifiableView, ErrorView>(e@),
        },
{
    let layout = non_modifiable_layout();
    let mut values = match decode_layout(data, &layout) {
        Ok(v) => v,
        Err(e) => return Err(e),
    };
    let ghost vals = values.deep_view();
    let ghost orig = values@;
    proof {
        lemma_decode_all_len(data@, layout@);
    }
    let place_of_birth_english = values.pop().unwrap();
    assert(values@ =~= orig.take(13) && place_of_birth_english.deep_view() == vals[13]);
    let place_of_birth_arabic = values.pop().unwrap();
    assert(values@ =~= orig.take(12) && place_of_birth_arabic.deep_view() == vals[12]);
    let date_of_birth = values.pop().unwrap();
    assert(values@ =~= orig.take(11) && date_of_birth.deep_view() == vals[11]);
    let nationality_code = values.pop().unwrap();
    assert(values@ =~= orig.take(10) && nationality_code.deep_view() == vals[10]);
    let nationality_english = values.pop().unwrap();
    assert(values@ =~= orig.take(9) && nationality_english.deep_view() == vals[9]);
    let nationality_arabic = values.pop().unwrap();
    assert(values@ =~= orig.take(8) && nationality_arabic.deep_view() == vals[8]);
    let gender = values.pop().unwrap();
    assert(values@ =~= orig.take(7) && gender.deep_view() == vals[7]);
    let full_name_english = values.pop().unwrap();
    assert(values@ =~= orig.take(6) && full_name_english.deep_view() == vals[6]);
    let title_english = values.pop().unwrap();
    assert(values@ =~= orig.take(5) && title_english.deep_view() == vals[5]);
    let full_name_arabic = values.pop().unwrap();
    assert(values@ =~= orig.take(4) && full_name_arabic.deep_view() == vals[4]);
    let title_arabic = values.pop().unwrap();
    assert(values@ =~= orig.take(3) && title_arabic.deep_view() == vals[3]);
    let expiry_date = values.pop().unwrap();
    assert(values@ =~= orig.take(2) && expiry_date.deep_view() == vals[2]);
    let issue_date = values.pop().unwrap();
    assert(values@ =~= orig.take(1) && issue_date.deep_view() == vals[1]);
    let id_type = values.pop().unwrap();
    assert(values@ =~= orig.take(0) && id_type.deep_view() == vals[0]);
    let d = NonModifiableData {
        id_type,
        issue_date,
        expiry_date,
        title_arabic,
        full_name_arabic,
        title_english,
        full_name_english,
        gender,
        nationality_arabic,
        nationality_english,
        nationality_code,
        date_of_birth,
        place_of_birth_arabic,
        place_of_birth_english,
    };
    assert(d@ =~= NonModifiableView::from_values(vals));
    Ok(d)
}

/// Decodes the extended data file.
pub fn decode_modifiable(data: &[u8]) -> (r: Result<ModifiableData, Error>)
    ensures
        match r {
            Ok(d) => decode_modifiable_spec(data@) == Ok::<ModifiableView, ErrorView>(d@),
            Err(e) => decode_modifiable_spec(data@) == Err::<ModifiableView, ErrorView>(e@),
        },
{
    let layout = modifiable_layout();
    let mut values = match decode_layout(data, &layout) {
        Ok(v) => v,
        Err(e) => return Err(e),
    };
    let ghost vals = values.deep_view();
    let ghost orig = values@;
    proof {
        lemma_decode_all_len(data@, layout@);
    }
    let mother_full_name_english = values.pop().unwrap();
    assert(values@ =~= orig.take(36) && mother_full_name_english.deep_view() == vals[36]);
    let mother_full_name_arabic = values.pop().unwrap();
    assert(values@ =~= orig.take(35) && mother_full_name_arabic.deep_view() == vals[35]);
    let date_of_graduation = values.pop().unwrap();
    assert(values@ =~= orig.take(34) && date_of_graduation.deep_view() == vals[34]);
    let place_of_study_english = values.pop().unwrap();
    assert(values@ =~= orig.take(33) && place_of_study_english.deep_view() == vals[33]);
    let place_of_study_arabic = values.pop().unwrap();
    assert(values@ =~= orig.take(32) && place_of_study_arabic.deep_view() == vals[32]);
    let field_of_study_english = values.pop().unwrap();
    assert(values@ =~= orig.take(31) && field_of_study_english.deep_view() == vals[31]);
    let field_of_study_arabic = values.pop().unwrap();
    assert(values@ =~= orig.take(30) && field_of_study_arabic.deep_view() == vals[30]);
    let field_of_study_code = values.pop().unwrap();
    assert(values@ =~= orig.take(29) && field_of_study_code.deep_view() == vals[29]);
    let degree_description_english = values.pop().unwrap();
    assert(values@ =~= orig.take(28) && degree_description_english.deep_view() == vals[28]);
    let degree_description_arabic = values.pop().unwrap();
    assert(values@ =~= orig.take(27) && degree_description_arabic.deep_view() == vals[27]);
    let qualification_level_english = values.pop().unwrap();
    assert(values@ =~= orig.take(26) && qualification_level_english.deep_view() == vals[26]);
    let qualification_level_arabic = values.pop().unwrap();
    assert(values@ =~= orig.take(25) && qualification_level_arabic.deep_view() == vals[25]);
    let qualification_level_code = values.pop().unwrap();
    assert(values@ =~= orig.take(24) && qualification_level_code.deep_view() == vals[24]);
    let passport_expiry_date = values.pop().unwrap();
    assert(values@ =~= orig.take(23) && passport_expiry_date.deep_view() == vals[23]);
    let passport_issue_date = values.pop().unwrap();
    assert(values@ =~= orig.take(22) && passport_issue_date.deep_view() == vals[22]);
    let passport_country_english = values.pop().unwrap();
    assert(values@ =~= orig.take(21) && passport_country_english.deep_view() == vals[21]);
    let passport_country_arabic = values.pop().unwrap();
    assert(values@ =~= orig.take(20) && passport_country_arabic.deep_view() == vals[20]);
    let passport_country_code = values.pop().unwrap();
    assert(values@ =~= orig.take(19) && passport_country_code.deep_view() == vals[19]);
    let passport_type_code = values.pop().unwrap();
    assert(values@ =~= orig.take(18) && passport_type_code.deep_view() == vals[18]);
    let passport_number = values.pop().unwrap();
    assert(values@ =~= orig.take(17) && passport_number.deep_view() == vals[17]);
    let residency_expiry_date = values.pop().unwrap();
    assert(values@ =~= orig.take(16) && residency_expiry_date.deep_view() == vals[16]);
    let residency_number = values.pop().unwrap();
    assert(values@ =~= orig.take(15) && residency_number.deep_view() == vals[15]);
    let residency_type_code = values.pop().unwrap();
    assert(values@ =~= orig.take(14) && residency_type_code.deep_view() == vals[14]);
    let sponsor_name = values.pop().unwrap();
    assert(values@ =~= orig.take(13) && sponsor_name.deep_view() == vals[13]);
    let sponsor_unified_number = values.pop().unwrap();
    assert(values@ =~= orig.take(12) && sponsor_unified_number.deep_view() == vals[12]);
    let sponsor_type_code = values.pop().unwrap();
    assert(values@ =~= orig.take(11) && sponsor_type_code.deep_view() == vals[11]);
    let husband_id_number = values.pop().unwrap();
    assert(values@ =~= orig.take(10) && husband_id_number.deep_view() == vals[10]);
    let marital_status_code = values.pop().unwrap();
    assert(values@ =~= orig.take(9) && marital_status_code.deep_view() == vals[9]);
    let company_name_english = values.pop().unwrap();
    assert(values@ =~= orig.take(8) && company_name_english.deep_view() == vals[8]);
    let company_name_arabic = values.pop().unwrap();
    assert(values@ =~= orig.take(7) && company_name_arabic.deep_view() == vals[7]);
    let occupation_field_code = values.pop().unwrap();
    assert(values@ =~= orig.take(6) && occupation_field_code.deep_view() == vals[6]);
    let occupation_type_english = values.pop().unwrap();
    assert(values@ =~= orig.take(5) && occupation_type_english.deep_view() == vals[5]);
    let occupation_type_arabic = values.pop().unwrap();
    assert(values@ =~= orig.take(4) && occupation_type_arabic.deep_view() == vals[4]);
    let family_id = values.pop().unwrap();
    assert(values@ =~= orig.take(3) && family_id.deep_view() == vals[3]);
    let occupation_english = values.pop().unwrap();
    assert(values@ =~= orig.take(2) && occupation_english.deep_view() == vals[2]);
    let occupation_arabic = values.pop().unwrap();
    assert(values@ =~= orig.take(1) && occupation_arabic.deep_view() == vals[1]);
    let occupation_code = values.pop().unwrap();
    assert(values@ =~= orig.take(0) && occupation_code.deep_view() == vals[0]);
    let d = ModifiableData {
        occupation_code,
        occupation_arabic,
        occupation_english,
        family_id,
        occupation_type_arabic,
        occupation_type_english,
        occupation_field_code,
        company_name_arabic,
        company_name_english,
        marital_status_code,
        husband_id_number,
        sponsor_type_code,
        sponsor_unified_number,
        sponsor_name,
        residency_type_code,
        residency_number,
        residency_expiry_date,
        passport_number,
        passport_type_code,
        passport_country_code,
        passport_country_arabic,
        passport_country_english,
        passport_issue_date,
        passport_expiry_date,
        qualification_level_code,
        qualification_level_arabic,
        qualification_level_english,
        degree_description_arabic,
        degree_description_english,
        field_of_study_code,
        field_of_study_arabic,
        field_of_study_english,
        place_of_study_arabic,
        place_of_study_english,
        date_of_graduation,
        mother_full_name_arabic,
        mother_full_name_english,
    };
    assert(d@ =~= ModifiableView::from_values(vals));
    Ok(d)
}


/// The digits of byte `i` stand at positions `2 * i` and `2 * i + 1`.
pub proof fn lemma_bcd_digits_index(v: Seq<u8>, i: int)
    requires
        0 <= i < v.len(),
    ensures
        bcd_digits(v).len() == 2 * v.len(),
        bcd_digits(v)[2 * i] == dec_digit((v[i] / 16) as int),
        bcd_digits(v)[2 * i + 1] == dec_digit((v[i] % 16) as int),
    decreases v.len(),
{
    lemma_bcd_digits_len(v);
    lemma_bcd_digits_len(v.drop_last());
    if i < v.len() - 1 {
        lemma_bcd_digits_index(v.drop_last(), i);
    }
}

/// Every packed-BCD code the decoder produces holds two ASCII digits per byte,
/// so leading zeroes are kept.
pub proof fn lemma_bcd_codes_are_digits(data: Seq<u8>, tag: u16)
    ensures
        bcd_spec(data, tag) matches Ok(Some(code)) ==> (all_ascii_digits(code) && (field_spec(
            data,
            tag,
        ) matches Ok(Some(v)) && code.len() == 2 * v.len())),
{
    if let Ok(Some(code)) = bcd_spec(data, tag) {
        let v = field_spec(data, tag)->Ok_0->Some_0;
        lemma_bcd_digits_len(v);
        assert forall|k: int| 0 <= k < code.len() implies is_ascii_digit(#[trigger] code[k]) by {
            let i = k / 2;
            lemma_bcd_digits_index(v, i);
            assert(v[i] / 16 <= 9 && v[i] % 16 <= 9);
        }
    }
}

/// Every date the decoder produces is an ISO `YYYY-MM-DD` calendar date, the
/// form the snapshot builder accepts.
pub proof fn lemma_decoded_dates_are_iso(data: Seq<u8>, tag: u16)
    ensures
        date_spec(data, tag) matches Ok(Some(s)) ==> is_iso_date(s),
{
    if let Ok(Some(s)) = date_spec(data, tag) {
        let v = field_spec(data, tag)->Ok_0->Some_0;
        let d = bcd_digits(v);
        lemma_bcd_digits_index(v, 0);
        lemma_bcd_digits_index(v, 1);
        lemma_bcd_digits_index(v, 2);
        lemma_bcd_digits_index(v, 3);
        assert(v[0] / 16 <= 9 && v[0] % 16 <= 9 && v[1] / 16 <= 9 && v[1] % 16 <= 9);
        assert(v[2] / 16 <= 9 && v[2] % 16 <= 9 && v[3] / 16 <= 9 && v[3] % 16 <= 9);
        assert(s[0] == d[0] && s[1] == d[1] && s[2] == d[2] && s[3] == d[3]);
        assert(s[5] == d[4] && s[6] == d[5] && s[8] == d[6] && s[9] == d[7]);
        assert forall|j: int| 0 <= j < 10 && j != 4 && j != 7 implies is_ascii_digit(
            #[trigger] s[j],
        ) by {}
        assert(digit_value(s[0]) == v[0] / 16 && digit_value(s[1]) == v[0] % 16);
        assert(digit_value(s[2]) == v[1] / 16 && digit_value(s[3]) == v[1] % 16);
        assert(digit_value(s[5]) == v[2] / 16 && digit_value(s[6]) == v[2] % 16);
        assert(digit_value(s[8]) == v[3] / 16 && digit_value(s[9]) == v[3] % 16);
    }
}

/// Each value that [`decode_all`] yields is the decoded value of its field.
pub proof fn lemma_decode_all_index(data: Seq<u8>, layout: Seq<(u16, FieldCoding)>, i: int)
    requires
        0 <= i < layout.len(),
        decode_all(data, layout) is Ok,
    ensures
        decode_all(data, layout)->Ok_0.len() == layout.len(),
        coded_field_spec(data, layout[i].0, layout[i].1) == Ok::<Option<Seq<char>>, ErrorView>(
            decode_all(data, layout)->Ok_0[i],
        ),
    decreases layout.len(),
{
    lemma_decode_all_len(data, layout);
    lemma_decode_all_len(data, layout.drop_last());
    if i < layout.len() - 1 {
        lemma_decode_all_index(data, layout.drop_last(), i);
    }
}

/// A value decoded under [`FieldCoding::Date`] is absent or an ISO calendar date.
proof fn lemma_date_value_iso(data: Seq<u8>, layout: Seq<(u16, FieldCoding)>, i: int)
    requires
        0 <= i < layout.len(),
        layout[i].1 == FieldCoding::Date,
        decode_all(data, layout) is Ok,
    ensures
        optional_iso_date(decode_all(data, layout)->Ok_0[i]),
{
    lemma_decode_all_index(data, layout, i);
    lemma_decoded_dates_are_iso(data, layout[i].0);
}

/// Every date of decoded core identity data is absent or an ISO calendar date.
pub proof fn lemma_non_modifiable_dates_iso(data: Seq<u8>)
    ensures
        decode_non_modifiable_spec(data) matches Ok(nm) ==> (optional_iso_date(nm.issue_date)
            && optional_iso_date(nm.expiry_date) && optional_iso_date(nm.date_of_birth)),
{
    let layout = non_modifiable_layout_spec();
    if decode_all(data, layout) is Ok {
        lemma_date_value_iso(data, layout, 1);
        lemma_date_value_iso(data, layout, 2);
        lemma_date_value_iso(data, layout, 11);
    }
}

/// Every date of decoded extended data is absent or an ISO calendar date.
pub proof fn lemma_modifiable_dates_iso(data: Seq<u8>)
    ensures
        decode_modifiable_spec(data) matches Ok(m) ==> (optional_iso_date(m.residency_expiry_date)
            && optional_iso_date(m.passport_issue_date) && optional_iso_date(m.passport_expiry_date)
            && optional_iso_date(m.date_of_graduation)),
{
    let layout = modifiable_layout_spec();
    if decode_all(data, layout) is Ok {
        lemma_date_value_iso(data, layout, 16);
        lemma_date_value_iso(data, layout, 22);
        lemma_date_value_iso(data, layout, 23);
        lemma_date_value_iso(data, layout, 34);
    }
}

/// The field header just before `a` names `wanted` and the length `b - a`.
pub open spec fn field_located(data: Seq<u8>, a: int, b: int, wanted: u16, end: int) -> bool {
    &&& 8 <= a <= b <= end
    &&& be16(data[a - 4], data[a - 3]) == wanted as int
    &&& be16(data[a - 2], data[a - 1]) == b - a
}

proof fn lemma_scan_found(data: Seq<u8>, offset: int, end: int, wanted: u16, found: Option<(int, int)>)
    requires
        4 <= offset,
        end <= data.len(),
        found matches Some(r) ==> field_located(data, r.0, r.1, wanted, end),
    ensures
        scan_fields(data, offset, end, wanted, found) matches Ok(Some(r)) ==> field_located(
            data,
            r.0,
            r.1,
            wanted,
            end,
        ),
    decreases end - offset,
{
    if offset < end && offset + 4 <= end {
        let tag = be16(data[offset], data[offset + 1]) as u16;
        let value_start = offset + 4;
        let value_end = value_start + be16(data[offset + 2], data[offset + 3]);
        assert(be16(data[offset], data[offset + 1]) < 65536);
        if value_end <= end && !(tag == wanted && found is Some) {
            lemma_scan_found(
                data,
                value_end,
                end,
                wanted,
                if tag == wanted {
                    Some((value_start, value_end))
                } else {
                    found
                },
            );
        }
    }
}

/// The value returned for `tag` lies inside the container, right after a
/// field header that names `tag` and the value's length.
pub proof fn lemma_field_located(data: Seq<u8>, tag: u16)
    ensures
        field_spec(data, tag) matches Ok(Some(v)) ==> exists|a: int|
            #![trigger data.subrange(a, a + v.len())]
            field_located(data, a, a + v.len(), tag, container_end(data)) && container_end(data)
                <= data.len() && v == data.subrange(a, a + v.len()),
{
    if data.len() >= 4 && container_end(data) <= data.len() {
        lemma_scan_found(data, 4, container_end(data), tag, None);
        if let Ok(Some(v)) = field_spec(data, tag) {
            let r = scan_fields(data, 4, container_end(data), tag, None)->Ok_0->Some_0;
            assert(v == data.subrange(r.0, r.0 + v.len()));
        }
    }
}

proof fn lemma_scan_structure(
    data: Seq<u8>,
    offset: int,
    end: int,
    first: u16,
    first_found: Option<(int, int)>,
    second: u16,
    second_found: Option<(int, int)>,
)
    requires
        scan_fields(data, offset, end, first, first_found) is Ok,
    ensures
        scan_fields(data, offset, end, second, second_found) is Ok || scan_fields(
            data,
            offset,
            end,
            second,
            second_found,
        ) == Err::<Option<(int, int)>, ErrorView>(tag_error("Duplicate field "@, second, Seq::empty())),
    decreases end - offset,
{
    if offset < end && offset + 4 <= end {
        let tag = be16(data[offset], data[offset + 1]) as u16;
        let value_start = offset + 4;
        let value_end = value_start + be16(data[offset + 2], data[offset + 3]);
        if value_end <= end && !(tag == second && second_found is Some) {
            lemma_scan_structure(
                data,
                value_end,
                end,
                first,
                if tag == first {
                    Some((value_start, value_end))
                } else {
                    first_found
                },
                second,
                if tag == second {
                    Some((value_start, value_end))
                } else {
                    second_found
                },
            );
        }
    }
}

/// Every field boundary of the container is checked whatever tag is asked
/// for: if the container is sound for one tag, it is sound for every other,
/// save that a second field with the asked tag is an error.
pub proof fn lemma_field_structure_independent(data: Seq<u8>, first: u16, second: u16)
    requires
        field_spec(data, first) is Ok,
    ensures
        field_spec(data, second) is Ok || field_spec(data, second) == Err::<
            Option<Seq<u8>>,
            ErrorView,
        >(tag_error("Duplicate field "@, second, Seq::empty())),
{
    lemma_scan_structure(data, 4, container_end(data), first, None, second, None);
}

/// A required identifier is reported by its label and tag only, never by its
/// value: a missing one as missing, a present one of the wrong shape as having
/// an invalid format.
pub proof fn lemma_identifier_errors_hide_value(data: Seq<u8>, tag: u16, label: Seq<char>, len: nat)
    ensures
        text_spec(data, tag) is Err ==> required_digits_spec(data, tag, label, len) == Err::<
            Seq<char>,
            ErrorView,
        >(text_spec(data, tag)->Err_0),
        text_spec(data, tag) matches Ok(None) ==> required_digits_spec(data, tag, label, len)
            == Err::<Seq<char>, ErrorView>(
            plain_error(
                ErrorKind::InvalidData,
                "Required "@ + label + " field "@ + hex4(tag) + " is missing"@,
            ),
        ),
        text_spec(data, tag) matches Ok(Some(t)) ==> (required_digits_spec(data, tag, label, len)
            == if t.len() == len && all_ascii_digits(t) {
            Ok::<Seq<char>, ErrorView>(t)
        } else {
            Err(
                plain_error(
                    ErrorKind::InvalidData,
                    label + " field "@ + hex4(tag) + " has an invalid format"@,
                ),
            )
        }),
{
}

/// Decoded text is never empty and neither starts nor ends with whitespace.
pub proof fn lemma_decoded_text_trimmed(data: Seq<u8>, tag: u16)
    ensures
        text_spec(data, tag) matches Ok(Some(t)) ==> (t.len() > 0 && !is_unicode_whitespace(t[0])
            && !is_unicode_whitespace(t.last())),
{
    if let Ok(Some(v)) = field_spec(data, tag) {
        if valid_utf8(v) {
            let u = trim(decode_utf8(v), Padding::Nul);
            let f = trim_front(u, Padding::Whitespace);
            lemma_trim_front_suffix(u, Padding::Whitespace);
            lemma_trim_back_prefix(f, Padding::Whitespace);
            let t = trim_back(f, Padding::Whitespace);
            if t.len() > 0 {
                assert(t[0] == f[0]);
            }
        }
    }
}

/// The texts that may surround a tag in a decoding error.
pub open spec fn is_tag_message(prefix: Seq<char>, suffix: Seq<char>) -> bool {
    ||| prefix == "Field "@ && (suffix == " is truncated"@ || suffix == " is not valid UTF-8"@
        || suffix == " is not packed BCD"@)
    ||| prefix == "Duplicate field "@ && suffix == Seq::<char>::empty()
    ||| prefix == "Date "@ && (suffix == " is not four bytes"@ || suffix == " is not packed BCD"@
        || suffix == " is not a calendar date"@)
}

/// A decoding error that names at most a field's tag: `InvalidData` with a
/// fixed message, or with a fixed text around a tag in hexadecimal.
pub open spec fn names_tag_only(e: ErrorView) -> bool {
    ||| e == plain_error(ErrorKind::InvalidData, "Truncated card container"@)
    ||| e == plain_error(ErrorKind::InvalidData, "Card container exceeds available data"@)
    ||| e == plain_error(ErrorKind::InvalidData, "Truncated field header"@)
    ||| exists|prefix: Seq<char>, tag: u16, suffix: Seq<char>|
        #![trigger tag_error(prefix, tag, suffix)]
        is_tag_message(prefix, suffix) && e == tag_error(prefix, tag, suffix)
}

proof fn lemma_scan_errors_name_tags(
    data: Seq<u8>,
    offset: int,
    end: int,
    wanted: u16,
    found: Option<(int, int)>,
)
    ensures
        scan_fields(data, offset, end, wanted, found) matches Err(e) ==> names_tag_only(e),
    decreases end - offset,
{
    if offset < end && offset + 4 <= end {
        let tag = be16(data[offset], data[offset + 1]) as u16;
        let value_start = offset + 4;
        let value_end = value_start + be16(data[offset + 2], data[offset + 3]);
        if value_end > end {
            assert(is_tag_message("Field "@, " is truncated"@));
            assert(names_tag_only(tag_error("Field "@, tag, " is truncated"@)));
        } else if tag == wanted && found is Some {
            assert(is_tag_message("Duplicate field "@, Seq::<char>::empty()));
            assert(names_tag_only(tag_error("Duplicate field "@, tag, Seq::<char>::empty())));
        } else {
            lemma_scan_errors_name_tags(
                data,
                value_end,
                end,
                wanted,
                if tag == wanted {
                    Some((value_start, value_end))
                } else {
                    found
                },
            );
        }
    }
}

proof fn lemma_coded_errors_name_tags(data: Seq<u8>, tag: u16, coding: FieldCoding)
    ensures
        coded_field_spec(data, tag, coding) matches Err(e) ==> names_tag_only(e),
{
    if data.len() >= 4 && container_end(data) <= data.len() {
        lemma_scan_errors_name_tags(data, 4, container_end(data), tag, None);
    }
    assert(is_tag_message("Field "@, " is not valid UTF-8"@));
    assert(names_tag_only(tag_error("Field "@, tag, " is not valid UTF-8"@)));
    assert(is_tag_message("Field "@, " is not packed BCD"@));
    assert(names_tag_only(tag_error("Field "@, tag, " is not packed BCD"@)));
    assert(is_tag_message("Date "@, " is not four bytes"@));
    assert(names_tag_only(tag_error("Date "@, tag, " is not four bytes"@)));
    assert(is_tag_message("Date "@, " is not packed BCD"@));
    assert(names_tag_only(tag_error("Date "@, tag, " is not packed BCD"@)));
    assert(is_tag_message("Date "@, " is not a calendar date"@));
    assert(names_tag_only(tag_error("Date "@, tag, " is not a calendar date"@)));
}

proof fn lemma_decode_all_errors_name_tags(data: Seq<u8>, layout: Seq<(u16, FieldCoding)>)
    ensures
        decode_all(data, layout) matches Err(e) ==> names_tag_only(e),
    decreases layout.len(),
{
    if layout.len() > 0 {
        lemma_decode_all_errors_name_tags(data, layout.drop_last());
        lemma_coded_errors_name_tags(data, layout.last().0, layout.last().1);
    }
}

/// Decoding the core identity or the extended data file never reports a
/// field's value: every error is `InvalidData` and names at most a tag.
pub proof fn lemma_decode_errors_name_tags_only(data: Seq<u8>)
    ensures
        decode_non_modifiable_spec(data) matches Err(e) ==> names_tag_only(e),
        decode_modifiable_spec(data) matches Err(e) ==> names_tag_only(e),
{
    lemma_decode_all_errors_name_tags(data, non_modifiable_layout_spec());
    lemma_decode_all_errors_name_tags(data, modifiable_layout_spec());
}


/// A layout decodes without error when each of its fields does.
pub proof fn lemma_decode_all_ok(data: Seq<u8>, layout: Seq<(u16, FieldCoding)>)
    requires
        forall|i: int| 0 <= i < layout.len() ==> (coded_field_spec(data, #[trigger] layout[i].0, layout[i].1) is Ok),
    ensures
        decode_all(data, layout) is Ok,
    decreases layout.len(),
{
    if layout.len() > 0 {
        let rest = layout.drop_last();
        assert forall|i: int| 0 <= i < rest.len() implies (coded_field_spec(data, #[trigger] rest[i].0, rest[i].1) is Ok) by {
            assert(rest[i] == layout[i]);
        }
        lemma_decode_all_ok(data, rest);
        assert(layout.last() == layout[layout.len() - 1]);
    }
}

/// Each core identity field is the decoding of its own card tag, and the file
/// decodes exactly when each of its fields does.
pub proof fn lemma_non_modifiable_fields_by_tag(data: Seq<u8>)
    ensures
        decode_non_modifiable_spec(data) matches Ok(nm) ==> {
            &&& text_spec(data, 0xE305u16) == Ok::<Option<Seq<char>>, ErrorView>(nm.id_type)
            &&& date_spec(data, 0x4306u16) == Ok::<Option<Seq<char>>, ErrorView>(nm.issue_date)
            &&& date_spec(data, 0x4307u16) == Ok::<Option<Seq<char>>, ErrorView>(nm.expiry_date)
            &&& text_spec(data, 0xA308u16) == Ok::<Option<Seq<char>>, ErrorView>(nm.title_arabic)
            &&& text_spec(data, 0xA309u16) == Ok::<Option<Seq<char>>, ErrorView>(nm.full_name_arabic)
            &&& text_spec(data, 0xE30Au16) == Ok::<Option<Seq<char>>, ErrorView>(nm.title_english)
            &&& text_spec(data, 0xE30Bu16) == Ok::<Option<Seq<char>>, ErrorView>(nm.full_name_english)
            &&& text_spec(data, 0xE30Cu16) == Ok::<Option<Seq<char>>, ErrorView>(nm.gender)
            &&& text_spec(data, 0xA30Du16) == Ok::<Option<Seq<char>>, ErrorView>(nm.nationality_arabic)
            &&& text_spec(data, 0xE336u16) == Ok::<Option<Seq<char>>, ErrorView>(nm.nationality_english)
            &&& text_spec(data, 0xE30Eu16) == Ok::<Option<Seq<char>>, ErrorView>(nm.nationality_code)
            &&& date_spec(data, 0x430Fu16) == Ok::<Option<Seq<char>>, ErrorView>(nm.date_of_birth)
            &&& text_spec(data, 0xA337u16) == Ok::<Option<Seq<char>>, ErrorView>(nm.place_of_birth_arabic)
            &&& text_spec(data, 0xE338u16) == Ok::<Option<Seq<char>>, ErrorView>(nm.place_of_birth_english)
        },
        (text_spec(data, 0xE305u16) is Ok && date_spec(data, 0x4306u16) is Ok && date_spec(data, 0x4307u16) is Ok && text_spec(data, 0xA308u16) is Ok && text_spec(data, 0xA309u16) is Ok && text_spec(data, 0xE30Au16) is Ok && text_spec(data, 0xE30Bu16) is Ok && text_spec(data, 0xE30Cu16) is Ok && text_spec(data, 0xA30Du16) is Ok && text_spec(data, 0xE336u16) is Ok && text_spec(data, 0xE30Eu16) is Ok && date_spec(data, 0x430Fu16) is Ok && text_spec(data, 0xA337u16) is Ok && text_spec(data, 0xE338u16) is Ok) ==> decode_non_modifiable_spec(data) is Ok,
{
    let layout = non_modifiable_layout_spec();
    if decode_all(data, layout) is Ok {
        lemma_decode_all_index(data, layout, 0);
        lemma_decode_all_index(data, layout, 1);
        lemma_decode_all_index(data, layout, 2);
        lemma_decode_all_index(data, layout, 3);
        lemma_decode_all_index(data, layout, 4);
        lemma_decode_all_index(data, layout, 5);
        lemma_decode_all_index(data, layout, 6);
        lemma_decode_all_index(data, layout, 7);
        lemma_decode_all_index(data, layout, 8);
        lemma_decode_all_index(data, layout, 9);
        lemma_decode_all_index(data, layout, 10);
        lemma_decode_all_index(data, layout, 11);
        lemma_decode_all_index(data, layout, 12);
        lemma_decode_all_index(data, layout, 13);
    }
    if text_spec(data, 0xE305u16) is Ok && date_spec(data, 0x4306u16) is Ok && date_spec(data, 0x4307u16) is Ok && text_spec(data, 0xA308u16) is Ok && text_spec(data, 0xA309u16) is Ok && text_spec(data, 0xE30Au16) is Ok && text_spec(data, 0xE30Bu16) is Ok && text_spec(data, 0xE30Cu16) is Ok && text_spec(data, 0xA30Du16) is Ok && text_spec(data, 0xE336u16) is Ok && text_spec(data, 0xE30Eu16) is Ok && date_spec(data, 0x430Fu16) is Ok && text_spec(data, 0xA337u16) is Ok && text_spec(data, 0xE338u16) is Ok {
        assert forall|i: int| 0 <= i < layout.len() implies (coded_field_spec(data, #[trigger] layout[i].0, layout[i].1) is Ok) by {
            if i == 0 { assert(layout[i] == (0xE305u16, FieldCoding::Text)); }
            if i == 1 { assert(layout[i] == (0x4306u16, FieldCoding::Date)); }
            if i == 2 { assert(layout[i] == (0x4307u16, FieldCoding::Date)); }
            if i == 3 { assert(layout[i] == (0xA308u16, FieldCoding::Text)); }
            if i == 4 { assert(layout[i] == (0xA309u16, FieldCoding::Text)); }
            if i == 5 { assert(layout[i] == (0xE30Au16, FieldCoding::Text)); }
            if i == 6 { assert(layout[i] == (0xE30Bu16, FieldCoding::Text)); }
            if i == 7 { assert(layout[i] == (0xE30Cu16, FieldCoding::Text)); }
            if i == 8 { assert(layout[i] == (0xA30Du16, FieldCoding::Text)); }
            if i == 9 { assert(layout[i] == (0xE336u16, FieldCoding::Text)); }
            if i == 10 { assert(layout[i] == (0xE30Eu16, FieldCoding::Text)); }
            if i == 11 { assert(layout[i] == (0x430Fu16, FieldCoding::Date)); }
            if i == 12 { assert(layout[i] == (0xA337u16, FieldCoding::Text)); }
            if i == 13 { assert(layout[i] == (0xE338u16, FieldCoding::Text)); }
        }
        lemma_decode_all_ok(data, layout);
    }
}
/// Each extended field is the decoding of its own card tag, and the file
/// decodes exactly when each of its fields does.
pub proof fn lemma_modifiable_fields_by_tag(data: Seq<u8>)
    ensures
        decode_modifiable_spec(data) matches Ok(m) ==> {
            &&& bcd_spec(data, 0x2515u16) == Ok::<Option<Seq<char>>, ErrorView>(m.occupation_code)
            &&& text_spec(data, 0xA539u16) == Ok::<Option<Seq<char>>, ErrorView>(m.occupation_arabic)
            &&& text_spec(data, 0xE53Au16) == Ok::<Option<Seq<char>>, ErrorView>(m.occupation_english)
            &&& text_spec(data, 0xE520u16) == Ok::<Option<Seq<char>>, ErrorView>(m.family_id)
            &&& text_spec(data, 0xA521u16) == Ok::<Option<Seq<char>>, ErrorView>(m.occupation_type_arabic)
            &&& text_spec(data, 0xE522u16) == Ok::<Option<Seq<char>>, ErrorView>(m.occupation_type_english)
            &&& bcd_spec(data, 0x2523u16) == Ok::<Option<Seq<char>>, ErrorView>(m.occupation_field_code)
            &&& text_spec(data, 0xA524u16) == Ok::<Option<Seq<char>>, ErrorView>(m.company_name_arabic)
            &&& text_spec(data, 0xE525u16) == Ok::<Option<Seq<char>>, ErrorView>(m.company_name_english)
            &&& bcd_spec(data, 0x2516u16) == Ok::<Option<Seq<char>>, ErrorView>(m.marital_status_code)
            &&& text_spec(data, 0xE517u16) == Ok::<Option<Seq<char>>, ErrorView>(m.husband_id_number)
            &&& bcd_spec(data, 0x2518u16) == Ok::<Option<Seq<char>>, ErrorView>(m.sponsor_type_code)
            &&& bcd_spec(data, 0x2519u16) == Ok::<Option<Seq<char>>, ErrorView>(m.sponsor_unified_number)
            &&& text_spec(data, 0xA51Au16) == Ok::<Option<Seq<char>>, ErrorView>(m.sponsor_name)
            &&& bcd_spec(data, 0x251Bu16) == Ok::<Option<Seq<char>>, ErrorView>(m.residency_type_code)
            &&& text_spec(data, 0xE51Cu16) == Ok::<Option<Seq<char>>, ErrorView>(m.residency_number)
            &&& date_spec(data, 0x451Du16) == Ok::<Option<Seq<char>>, ErrorView>(m.residency_expiry_date)
            &&& text_spec(data, 0xE526u16) == Ok::<Option<Seq<char>>, ErrorView>(m.passport_number)
            &&& bcd_spec(data, 0x2527u16) == Ok::<Option<Seq<char>>, ErrorView>(m.passport_type_code)
            &&& text_spec(data, 0xE528u16) == Ok::<Option<Seq<char>>, ErrorView>(m.passport_country_code)
            &&& text_spec(data, 0xA53Bu16) == Ok::<Option<Seq<char>>, ErrorView>(m.passport_country_arabic)
            &&& text_spec(data, 0xE53Cu16) == Ok::<Option<Seq<char>>, ErrorView>(m.passport_country_english)
            &&& date_spec(data, 0x4529u16) == Ok::<Option<Seq<char>>, ErrorView>(m.passport_issue_date)
            &&& date_spec(data, 0x452Au16) == Ok::<Option<Seq<char>>, ErrorView>(m.passport_expiry_date)
            &&& bcd_spec(data, 0x252Bu16) == Ok::<Option<Seq<char>>, ErrorView>(m.qualification_level_code)
            &&& text_spec(data, 0xA53Du16) == Ok::<Option<Seq<char>>, ErrorView>(m.qualification_level_arabic)
            &&& text_spec(data, 0xE53Eu16) == Ok::<Option<Seq<char>>, ErrorView>(m.qualification_level_english)
            &&& text_spec(data, 0xA52Cu16) == Ok::<Option<Seq<char>>, ErrorView>(m.degree_description_arabic)
            &&& text_spec(data, 0xE52Du16) == Ok::<Option<Seq<char>>, ErrorView>(m.degree_description_english)
            &&& bcd_spec(data, 0x252Eu16) == Ok::<Option<Seq<char>>, ErrorView>(m.field_of_study_code)
            &&& text_spec(data, 0xA53Fu16) == Ok::<Option<Seq<char>>, ErrorView>(m.field_of_study_arabic)
            &&& text_spec(data, 0xE540u16) == Ok::<Option<Seq<char>>, ErrorView>(m.field_of_study_english)
            &&& text_spec(data, 0xA52Fu16) == Ok::<Option<Seq<char>>, ErrorView>(m.place_of_study_arabic)
            &&& text_spec(data, 0xE530u16) == Ok::<Option<Seq<char>>, ErrorView>(m.place_of_study_english)
            &&& date_spec(data, 0x4531u16) == Ok::<Option<Seq<char>>, ErrorView>(m.date_of_graduation)
            &&& text_spec(data, 0xA510u16) == Ok::<Option<Seq<char>>, ErrorView>(m.mother_full_name_arabic)
            &&& text_spec(data, 0xE511u16) == Ok::<Option<Seq<char>>, ErrorView>(m.mother_full_name_english)
        },
        (bcd_spec(data, 0x2515u16) is Ok && text_spec(data, 0xA539u16) is Ok && text_spec(data, 0xE53Au16) is Ok && text_spec(data, 0xE520u16) is Ok && text_spec(data, 0xA521u16) is Ok && text_spec(data, 0xE522u16) is Ok && bcd_spec(data, 0x2523u16) is Ok && text_spec(data, 0xA524u16) is Ok && text_spec(data, 0xE525u16) is Ok && bcd_spec(data, 0x2516u16) is Ok && text_spec(data, 0xE517u16) is Ok && bcd_spec(data, 0x2518u16) is Ok && bcd_spec(data, 0x2519u16) is Ok && text_spec(data, 0xA51Au16) is Ok && bcd_spec(data, 0x251Bu16) is Ok && text_spec(data, 0xE51Cu16) is Ok && date_spec(data, 0x451Du16) is Ok && text_spec(data, 0xE526u16) is Ok && bcd_spec(data, 0x2527u16) is Ok && text_spec(data, 0xE528u16) is Ok && text_spec(data, 0xA53Bu16) is Ok && text_spec(data, 0xE53Cu16) is Ok && date_spec(data, 0x4529u16) is Ok && date_spec(data, 0x452Au16) is Ok && bcd_spec(data, 0x252Bu16) is Ok && text_spec(data, 0xA53Du16) is Ok && text_spec(data, 0xE53Eu16) is Ok && text_spec(data, 0xA52Cu16) is Ok && text_spec(data, 0xE52Du16) is Ok && bcd_spec(data, 0x252Eu16) is Ok && text_spec(data, 0xA53Fu16) is Ok && text_spec(data, 0xE540u16) is Ok && text_spec(data, 0xA52Fu16) is Ok && text_spec(data, 0xE530u16) is Ok && date_spec(data, 0x4531u16) is Ok && text_spec(data, 0xA510u16) is Ok && text_spec(data, 0xE511u16) is Ok) ==> decode_modifiable_spec(data) is Ok,
{
    let layout = modifiable_layout_spec();
    if decode_all(data, layout) is Ok {
        lemma_decode_all_index(data, layout, 0);
        lemma_decode_all_index(data, layout, 1);
        lemma_decode_all_index(data, layout, 2);
        lemma_decode_all_index(data, layout, 3);
        lemma_decode_all_index(data, layout, 4);
        lemma_decode_all_index(data, layout, 5);
        lemma_decode_all_index(data, layout, 6);
        lemma_decode_all_index(data, layout, 7);
        lemma_decode_all_index(data, layout, 8);
        lemma_decode_all_index(data, layout, 9);
        lemma_decode_all_index(data, layout, 10);
        lemma_decode_all_index(data, layout, 11);
        lemma_decode_all_index(data, layout, 12);
        lemma_decode_all_index(data, layout, 13);
        lemma_decode_all_index(data, layout, 14);
        lemma_decode_all_index(data, layout, 15);
        lemma_decode_all_index(data, layout, 16);
        lemma_decode_all_index(data, layout, 17);
        lemma_decode_all_index(data, layout, 18);
        lemma_decode_all_index(data, layout, 19);
        lemma_decode_all_index(data, layout, 20);
        lemma_decode_all_index(data, layout, 21);
        lemma_decode_all_index(data, layout, 22);
        lemma_decode_all_index(data, layout, 23);
        lemma_decode_all_index(data, layout, 24);
        lemma_decode_all_index(data, layout, 25);
        lemma_decode_all_index(data, layout, 26);
        lemma_decode_all_index(data, layout, 27);
        lemma_decode_all_index(data, layout, 28);
        lemma_decode_all_index(data, layout, 29);
        lemma_decode_all_index(data, layout, 30);
        lemma_decode_all_index(data, layout, 31);
        lemma_decode_all_index(data, layout, 32);
        lemma_decode_all_index(data, layout, 33);
        lemma_decode_all_index(data, layout, 34);
        lemma_decode_all_index(data, layout, 35);
        lemma_decode_all_index(data, layout, 36);
    }
    if bcd_spec(data, 0x2515u16) is Ok && text_spec(data, 0xA539u16) is Ok && text_spec(data, 0xE53Au16) is Ok && text_spec(data, 0xE520u16) is Ok && text_spec(data, 0xA521u16) is Ok && text_spec(data, 0xE522u16) is Ok && bcd_spec(data, 0x2523u16) is Ok && text_spec(data, 0xA524u16) is Ok && text_spec(data, 0xE525u16) is Ok && bcd_spec(data, 0x2516u16) is Ok && text_spec(data, 0xE517u16) is Ok && bcd_spec(data, 0x2518u16) is Ok && bcd_spec(data, 0x2519u16) is Ok && text_spec(data, 0xA51Au16) is Ok && bcd_spec(data, 0x251Bu16) is Ok && text_spec(data, 0xE51Cu16) is Ok && date_spec(data, 0x451Du16) is Ok && text_spec(data, 0xE526u16) is Ok && bcd_spec(data, 0x2527u16) is Ok && text_spec(data, 0xE528u16) is Ok && text_spec(data, 0xA53Bu16) is Ok && text_spec(data, 0xE53Cu16) is Ok && date_spec(data, 0x4529u16) is Ok && date_spec(data, 0x452Au16) is Ok && bcd_spec(data, 0x252Bu16) is Ok && text_spec(data, 0xA53Du16) is Ok && text_spec(data, 0xE53Eu16) is Ok && text_spec(data, 0xA52Cu16) is Ok && text_spec(data, 0xE52Du16) is Ok && bcd_spec(data, 0x252Eu16) is Ok && text_spec(data, 0xA53Fu16) is Ok && text_spec(data, 0xE540u16) is Ok && text_spec(data, 0xA52Fu16) is Ok && text_spec(data, 0xE530u16) is Ok && date_spec(data, 0x4531u16) is Ok && text_spec(data, 0xA510u16) is Ok && text_spec(data, 0xE511u16) is Ok {
        assert forall|i: int| 0 <= i < layout.len() implies (coded_field_spec(data, #[trigger] layout[i].0, layout[i].1) is Ok) by {
            if i == 0 { assert(layout[i] == (0x2515u16, FieldCoding::Bcd)); }
            if i == 1 { assert(layout[i] == (0xA539u16, FieldCoding::Text)); }
            if i == 2 { assert(layout[i] == (0xE53Au16, FieldCoding::Text)); }
            if i == 3 { assert(layout[i] == (0xE520u16, FieldCoding::Text)); }
            if i == 4 { assert(layout[i] == (0xA521u16, FieldCoding::Text)); }
            if i == 5 { assert(layout[i] == (0xE522u16, FieldCoding::Text)); }
            if i == 6 { assert(layout[i] == (0x2523u16, FieldCoding::Bcd)); }
            if i == 7 { assert(layout[i] == (0xA524u16, FieldCoding::Text)); }
            if i == 8 { assert(layout[i] == (0xE525u16, FieldCoding::Text)); }
            if i == 9 { assert(layout[i] == (0x2516u16, FieldCoding::Bcd)); }
            if i == 10 { assert(layout[i] == (0xE517u16, FieldCoding::Text)); }
            if i == 11 { assert(layout[i] == (0x2518u16, FieldCoding::Bcd)); }
            if i == 12 { assert(layout[i] == (0x2519u16, FieldCoding::Bcd)); }
            if i == 13 { assert(layout[i] == (0xA51Au16, FieldCoding::Text)); }
            if i == 14 { assert(layout[i] == (0x251Bu16, FieldCoding::Bcd)); }
            if i == 15 { assert(layout[i] == (0xE51Cu16, FieldCoding::Text)); }
            if i == 16 { assert(layout[i] == (0x451Du16, FieldCoding::Date)); }
            if i == 17 { assert(layout[i] == (0xE526u16, FieldCoding::Text)); }
            if i == 18 { assert(layout[i] == (0x2527u16, FieldCoding::Bcd)); }
            if i == 19 { assert(layout[i] == (0xE528u16, FieldCoding::Text)); }
            if i == 20 { assert(layout[i] == (0xA53Bu16, FieldCoding::Text)); }
            if i == 21 { assert(layout[i] == (0xE53Cu16, FieldCoding::Text)); }
            if i == 22 { assert(layout[i] == (0x4529u16, FieldCoding::Date)); }
            if i == 23 { assert(layout[i] == (0x452Au16, FieldCoding::Date)); }
            if i == 24 { assert(layout[i] == (0x252Bu16, FieldCoding::Bcd)); }
            if i == 25 { assert(layout[i] == (0xA53Du16, FieldCoding::Text)); }
            if i == 26 { assert(layout[i] == (0xE53Eu16, FieldCoding::Text)); }
            if i == 27 { assert(layout[i] == (0xA52Cu16, FieldCoding::Text)); }
            if i == 28 { assert(layout[i] == (0xE52Du16, FieldCoding::Text)); }
            if i == 29 { assert(layout[i] == (0x252Eu16, FieldCoding::Bcd)); }
            if i == 30 { assert(layout[i] == (0xA53Fu16, FieldCoding::Text)); }
            if i == 31 { assert(layout[i] == (0xE540u16, FieldCoding::Text)); }
            if i == 32 { assert(layout[i] == (0xA52Fu16, FieldCoding::Text)); }
            if i == 33 { assert(layout[i] == (0xE530u16, FieldCoding::Text)); }
            if i == 34 { assert(layout[i] == (0x4531u16, FieldCoding::Date)); }
            if i == 35 { assert(layout[i] == (0xA510u16, FieldCoding::Text)); }
            if i == 36 { assert(layout[i] == (0xE511u16, FieldCoding::Text)); }
        }
        lemma_decode_all_ok(data, layout);
    }
}
/// The calendar is the Gregorian one: January, March, May, July, August,
/// October and December have 31 days; April, June, September and November
/// 30; February 29 in years divisible by 4 but not by 100, or by 400, and 28
/// otherwise; no other month has days.
pub proof fn lemma_gregorian_calendar(year: int)
    ensures
        days_in_month(year, 1) == 31,
        days_in_month(year, 2) == if year % 4 == 0 && (year % 100 != 0 || year % 400 == 0) {
            29int
        } else {
            28int
        },
        days_in_month(year, 3) == 31,
        days_in_month(year, 4) == 30,
        days_in_month(year, 5) == 31,
        days_in_month(year, 6) == 30,
        days_in_month(year, 7) == 31,
        days_in_month(year, 8) == 31,
        days_in_month(year, 9) == 30,
        days_in_month(year, 10) == 31,
        days_in_month(year, 11) == 30,
        days_in_month(year, 12) == 31,
        forall|month: int| (month < 1 || 12 < month) ==> #[trigger] days_in_month(year, month) == 0,
{
}

/// A decoded date spells the card's bytes: its digits are the nibbles of the
/// four bytes (century, year, month, day), high nibble first, with dashes
/// after the year and the month.
pub proof fn lemma_date_spells_bytes(data: Seq<u8>, tag: u16)
    ensures
        date_spec(data, tag) matches Ok(Some(s)) ==> (field_spec(data, tag) matches Ok(Some(v))
            && v.len() == 4 && s.len() == 10 && s[4] == '-' && s[7] == '-' && digit_value(s[0])
            == v[0] / 16 && digit_value(s[1]) == v[0] % 16 && digit_value(s[2]) == v[1] / 16
            && digit_value(s[3]) == v[1] % 16 && digit_value(s[5]) == v[2] / 16 && digit_value(s[6])
            == v[2] % 16 && digit_value(s[8]) == v[3] / 16 && digit_value(s[9]) == v[3] % 16),
{
    if let Ok(Some(s)) = date_spec(data, tag) {
        let v = field_spec(data, tag)->Ok_0->Some_0;
        lemma_bcd_digits_index(v, 0);
        lemma_bcd_digits_index(v, 1);
        lemma_bcd_digits_index(v, 2);
        lemma_bcd_digits_index(v, 3);
        assert(v[0] / 16 <= 9 && v[0] % 16 <= 9 && v[1] / 16 <= 9 && v[1] % 16 <= 9);
        assert(v[2] / 16 <= 9 && v[2] % 16 <= 9 && v[3] / 16 <= 9 && v[3] % 16 <= 9);
    }
}

/// Every real date is accepted: a four-byte packed-BCD value naming year
/// `century * 100 + year` (not 0), a month of 1 to 12 and a day that month
/// has decodes to a date.
pub proof fn lemma_date_accepts_real_dates(data: Seq<u8>, tag: u16)
    ensures
        field_spec(data, tag) matches Ok(Some(v)) ==> ((v.len() == 4 && (forall|i: int|
            0 <= i < 4 ==> #[trigger] v[i] / 16 <= 9 && v[i] % 16 <= 9) && !(forall|i: int|
            0 <= i < 4 ==> (#[trigger] v[i] == 0 || v[i] == 0xFF)) && ((v[0] / 16) * 1000 + (v[0]
            % 16) * 100 + (v[1] / 16) * 10 + v[1] % 16) != 0 && 1 <= (v[2] / 16) * 10 + v[2] % 16
            <= 12 && 1 <= (v[3] / 16) * 10 + v[3] % 16 <= days_in_month(
            (v[0] / 16) * 1000 + (v[0] % 16) * 100 + (v[1] / 16) * 10 + v[1] % 16,
            (v[2] / 16) * 10 + v[2] % 16,
        )) ==> date_spec(data, tag) matches Ok(Some(_))),
{
}

/// A decoded packed-BCD code spells the card's bytes: its digits are the
/// nibbles of each byte, high nibble first.
pub proof fn lemma_bcd_spells_bytes(data: Seq<u8>, tag: u16)
    ensures
        bcd_spec(data, tag) matches Ok(Some(code)) ==> (field_spec(data, tag) matches Ok(Some(v))
            && code.len() == 2 * v.len() && forall|i: int|
            0 <= i < v.len() ==> digit_value(#[trigger] code[2 * i]) == v[i] / 16 && digit_value(
                code[2 * i + 1],
            ) == v[i] % 16),
{
    if let Ok(Some(code)) = bcd_spec(data, tag) {
        let v = field_spec(data, tag)->Ok_0->Some_0;
        lemma_bcd_digits_len(v);
        assert forall|i: int| 0 <= i < v.len() implies digit_value(#[trigger] code[2 * i]) == v[i]
            / 16 && digit_value(code[2 * i + 1]) == v[i] % 16 by {
            lemma_bcd_digits_index(v, i);
            assert(v[i] / 16 <= 9 && v[i] % 16 <= 9);
        }
    }
}

/// Decoded text is the card's text with only padding taken off: it is a
/// contiguous piece of the field's UTF-8 text, and every character before or
/// after that piece is NUL or whitespace.
pub proof fn lemma_text_is_stored_text(data: Seq<u8>, tag: u16)
    ensures
        text_spec(data, tag) matches Ok(Some(t)) ==> (field_spec(data, tag) matches Ok(Some(v))
            && valid_utf8(v) && exists|a: int|
            #![trigger decode_utf8(v).subrange(a, a + t.len())]
            0 <= a && a + t.len() <= decode_utf8(v).len() && decode_utf8(v).subrange(a, a + t.len())
                == t && (forall|i: int|
                0 <= i < a ==> (#[trigger] decode_utf8(v)[i] == '\0' || is_unicode_whitespace(
                    decode_utf8(v)[i],
                ))) && (forall|i: int|
                a + t.len() <= i < decode_utf8(v).len() ==> (#[trigger] decode_utf8(v)[i] == '\0'
                    || is_unicode_whitespace(decode_utf8(v)[i])))),
{
    if let Ok(Some(t)) = text_spec(data, tag) {
        let v = field_spec(data, tag)->Ok_0->Some_0;
        let d = decode_utf8(v);
        let u = trim(d, Padding::Nul);
        let a1 = lemma_trim_piece(d, Padding::Nul);
        let a2 = lemma_trim_piece(u, Padding::Whitespace);
        assert(t == trim(u, Padding::Whitespace));
        let a = a1 + a2;
        assert forall|i: int| 0 <= i < a implies (#[trigger] d[i] == '\0' || is_unicode_whitespace(
            d[i],
        )) by {
            if i >= a1 {
                assert(d[i] == u[i - a1]);
                assert(is_padding(Padding::Whitespace, u[i - a1]));
            } else {
                assert(is_padding(Padding::Nul, d[i]));
            }
        }
        assert forall|i: int| a + t.len() <= i < d.len() implies (#[trigger] d[i] == '\0'
            || is_unicode_whitespace(d[i])) by {
            if i < a1 + u.len() {
                assert(d[i] == u[i - a1]);
                assert(is_padding(Padding::Whitespace, u[i - a1]));
            } else {
                assert(is_padding(Padding::Nul, d[i]));
            }
        }
        assert(d.subrange(a, a + t.len()) =~= t) by {
            assert forall|k: int| 0 <= k < t.len() implies d.subrange(a, a + t.len())[k] == t[k] by {
                assert(t[k] == u[a2 + k]);
                assert(u[a2 + k] == d[a1 + a2 + k]);
            }
        }
    }
}

/// A container holding two fields with different tags gives each field's
/// value for its tag, and nothing for any other tag.
pub proof fn lemma_two_field_container(
    c0: u8,
    c1: u8,
    first: u16,
    first_value: Seq<u8>,
    second: u16,
    second_value: Seq<u8>,
    other: u16,
)
    requires
        first != second,
        other != first && other != second,
        8 + first_value.len() + second_value.len() <= 0xFFFF,
    ensures
        ({
            let n1 = first_value.len();
            let n2 = second_value.len();
            let payload = 8 + n1 + n2;
            let data = seq![c0, c1, (payload / 256) as u8, (payload % 256) as u8] + seq![
                (first / 256) as u8,
                (first % 256) as u8,
                (n1 / 256) as u8,
                (n1 % 256) as u8,
            ] + first_value + seq![
                (second / 256) as u8,
                (second % 256) as u8,
                (n2 / 256) as u8,
                (n2 % 256) as u8,
            ] + second_value;
            &&& field_spec(data, first) == Ok::<Option<Seq<u8>>, ErrorView>(Some(first_value))
            &&& field_spec(data, second) == Ok::<Option<Seq<u8>>, ErrorView>(Some(second_value))
            &&& field_spec(data, other) == Ok::<Option<Seq<u8>>, ErrorView>(None)
        }),
{
    let n1: int = first_value.len() as int;
    let n2: int = second_value.len() as int;
    let payload: int = 8 + n1 + n2;
    let h1 = seq![(first / 256) as u8, (first % 256) as u8, (n1 / 256) as u8, (n1 % 256) as u8];
    let h2 = seq![(second / 256) as u8, (second % 256) as u8, (n2 / 256) as u8, (n2 % 256) as u8];
    let data = seq![c0, c1, (payload / 256) as u8, (payload % 256) as u8] + h1 + first_value + h2
        + second_value;
    let end: int = 4 + payload;
    assert(data.len() == end);
    assert(be16(data[2], data[3]) == payload);
    assert(container_end(data) == end);
    let s2: int = 8 + n1;
    assert(data[4] == h1[0] && data[5] == h1[1] && data[6] == h1[2] && data[7] == h1[3]);
    assert(data[s2] == h2[0] && data[s2 + 1] == h2[1] && data[s2 + 2] == h2[2] && data[s2 + 3]
        == h2[3]);
    assert(be16(data[4], data[5]) == first as int);
    assert(be16(data[6], data[7]) == n1);
    assert(be16(data[s2], data[s2 + 1]) == second as int);
    assert(be16(data[s2 + 2], data[s2 + 3]) == n2);
    assert(data.subrange(8, 8 + n1) =~= first_value);
    assert(data.subrange(s2 + 4, s2 + 4 + n2) =~= second_value);
    let r1: Option<(int, int)> = Some((8int, 8 + n1));
    let r2: Option<(int, int)> = Some((s2 + 4, s2 + 4 + n2));
    assert(scan_fields(data, end, end, first, r1) == Ok::<Option<(int, int)>, ErrorView>(r1));
    assert(scan_fields(data, s2, end, first, r1) == Ok::<Option<(int, int)>, ErrorView>(r1));
    assert(scan_fields(data, 4, end, first, None) == Ok::<Option<(int, int)>, ErrorView>(r1));
    assert(scan_fields(data, end, end, second, r2) == Ok::<Option<(int, int)>, ErrorView>(r2));
    assert(scan_fields(data, s2, end, second, None) == Ok::<Option<(int, int)>, ErrorView>(r2));
    assert(scan_fields(data, 4, end, second, None) == Ok::<Option<(int, int)>, ErrorView>(r2));
    assert(scan_fields(data, end, end, other, None) == Ok::<Option<(int, int)>, ErrorView>(None));
    assert(scan_fields(data, s2, end, other, None) == Ok::<Option<(int, int)>, ErrorView>(None));
    assert(scan_fields(data, 4, end, other, None) == Ok::<Option<(int, int)>, ErrorView>(None));
}

} // verus!
