//! The line under which one event is reported.

use crate::record::{ChangeRecord, RecordView};
use vstd::prelude::*;

verus! {

/// The character of a decimal digit.
pub open spec fn digit_char(digit: int) -> char {
    (0x30 + digit) as char
}

/// The character of a hexadecimal digit, letters in upper case.
pub open spec fn hex_char(digit: int) -> char {
    if digit < 10 {
        (0x30 + digit) as char
    } else {
        (0x41 + digit - 10) as char
    }
}

/// The decimal digits of `n`, without leading zeros.
pub open spec fn decimal_digits(n: nat) -> Seq<char>
    decreases n,
{
    if n < 10 {
        seq![digit_char(n as int)]
    } else {
        decimal_digits(n / 10).push(digit_char((n % 10) as int))
    }
}

/// The decimal digits of `n`, with zeros in front up to `width` digits.
pub open spec fn zero_padded(n: nat, width: nat) -> Seq<char> {
    let digits = decimal_digits(n);
    if digits.len() >= width {
        digits
    } else {
        Seq::new((width - digits.len()) as nat, |i: int| '0') + digits
    }
}

/// The decimal form of a signed number.
pub open spec fn signed_decimal(value: int) -> Seq<char> {
    if value < 0 {
        seq!['-'] + decimal_digits((-value) as nat)
    } else {
        decimal_digits(value as nat)
    }
}

/// The last `width` hexadecimal digits of `value`.
pub open spec fn hex_fixed(value: nat, width: nat) -> Seq<char>
    decreases width,
{
    if width == 0 {
        Seq::empty()
    } else {
        hex_fixed(value / 16, (width - 1) as nat).push(hex_char((value % 16) as int))
    }
}

/// The time of day of a moment given in seconds and milliseconds since the
/// start of a day: hours, minutes and seconds in two digits, milliseconds in
/// three.
pub open spec fn timestamp_text(total_secs: nat, millis: nat) -> Seq<char> {
    zero_padded((total_secs / 3600) % 24, 2) + seq![':'] + zero_padded((total_secs / 60) % 60, 2)
        + seq![':'] + zero_padded(total_secs % 60, 2) + seq!['.'] + zero_padded(millis, 3)
}

/// The line of one event.
pub open spec fn line_text(timestamp: Seq<char>, record: RecordView) -> Seq<char> {
    "["@ + timestamp + "] "@ + record.operation.label_spec() + " | File: "@ + record.file_name
        + " | Type: "@ + record.file_type.label_spec() + " | Ext: "@ + record.extension
        + " | USN: "@ + signed_decimal(record.usn) + " | FileRef: "@ + hex_fixed(
        record.file_reference as nat,
        16,
    )
}

/// Appends the decimal digits of `n`.
fn push_decimal(text: &mut String, n: u64)
    ensures
        final(text)@ == old(text)@ + decimal_digits(n as nat),
    decreases n,
{
    if n >= 10 {
        push_decimal(text, n / 10);
    }
    let digit: u8 = (n % 10) as u8;
    text.push((0x30 + digit) as char);
    assert(final(text)@ =~= old(text)@ + decimal_digits(n as nat));
}

/// The number of decimal digits of `n`.
fn decimal_width(n: u64) -> (width: u64)
    ensures
        width == decimal_digits(n as nat).len(),
        width <= n / 10 + 1,
    decreases n,
{
    if n < 10 {
        1
    } else {
        decimal_width(n / 10) + 1
    }
}

/// Appends the decimal digits of `n`, with zeros in front up to `width`
/// digits.
fn push_padded(text: &mut String, n: u64, width: u64)
    ensures
        final(text)@ == old(text)@ + zero_padded(n as nat, width as nat),
{
    let have: u64 = decimal_width(n);
    let mut k: u64 = have;
    let ghost start = text@;
    while k < width
        invariant
            have <= k,
            have < width ==> k <= width,
            have >= width ==> k == have,
            text@ == start + Seq::new((k - have) as nat, |i: int| '0'),
        decreases width - k,
    {
        text.push('0');
        assert(text@ =~= start + Seq::new((k + 1 - have) as nat, |i: int| '0'));
        k = k + 1;
    }
    let ghost pad = Seq::new((k - have) as nat, |i: int| '0');
    let ghost digits = decimal_digits(n as nat);
    push_decimal(text, n);
    proof {
        assert(text@ == (start + pad) + digits);
        if have >= width {
            assert(pad =~= Seq::<char>::empty());
            assert(zero_padded(n as nat, width as nat) == digits);
            assert((start + pad) + digits =~= start + digits);
        } else {
            assert(zero_padded(n as nat, width as nat) =~= pad + digits);
            assert((start + pad) + digits =~= start + (pad + digits));
        }
    }
}

/// Appends the decimal form of `value`.
fn push_signed(text: &mut String, value: i64)
    ensures
        final(text)@ == old(text)@ + signed_decimal(value as int),
{
    let ghost start = text@;
    if value < 0 {
        text.push('-');
        let below: u64 = (-(value + 1)) as u64;
        push_decimal(text, below + 1);
        assert(text@ =~= start + signed_decimal(value as int));
    } else {
        push_decimal(text, value as u64);
    }
}

/// Appends the last `width` hexadecimal digits of `value`.
fn push_hex(text: &mut String, value: u64, width: u32)
    ensures
        final(text)@ == old(text)@ + hex_fixed(value as nat, width as nat),
    decreases width,
{
    if width == 0 {
        assert(final(text)@ =~= old(text)@ + hex_fixed(value as nat, width as nat));
    } else {
        push_hex(text, value / 16, width - 1);
        let digit: u8 = (value % 16) as u8;
        if digit < 10 {
            text.push((0x30 + digit) as char);
        } else {
            text.push((0x41 + (digit - 10)) as char);
        }
        assert(final(text)@ =~= old(text)@ + hex_fixed(value as nat, width as nat));
    }
}

/// The time of day of a moment given as the seconds and milliseconds that a
/// clock counts, in the form `HH:MM:SS.mmm`.
pub fn format_timestamp(total_secs: u64, millis: u32) -> (text: String)
    ensures
        text@ == timestamp_text(total_secs as nat, millis as nat),
{
    let mut text = String::new();
    push_padded(&mut text, (total_secs / 3600) % 24, 2);
    text.push(':');
    push_padded(&mut text, (total_secs / 60) % 60, 2);
    text.push(':');
    push_padded(&mut text, total_secs % 60, 2);
    text.push('.');
    push_padded(&mut text, millis as u64, 3);
    assert(text@ =~= timestamp_text(total_secs as nat, millis as nat));
    text
}

/// The file reference number in sixteen hexadecimal digits, letters in upper
/// case.
pub fn format_file_reference(file_reference: u64) -> (text: String)
    ensures
        text@ == hex_fixed(file_reference as nat, 16),
{
    let mut text = String::new();
    push_hex(&mut text, file_reference, 16);
    assert(text@ =~= hex_fixed(file_reference as nat, 16));
    text
}

/// The line under which `record` is reported, without the line end:
/// timestamp, operation kind, file name, file type, extension, sequence
/// number, and file reference number in sixteen hexadecimal digits.
pub fn format_event(timestamp: &str, record: &ChangeRecord) -> (line: String)
    ensures
        line@ == line_text(timestamp@, record@),
{
    let mut line = String::new();
    line.append("[");
    line.append(timestamp);
    line.append("] ");
    line.append(record.operation.label());
    line.append(" | File: ");
    line.append(record.file_name.as_str());
    line.append(" | Type: ");
    line.append(record.file_type.label());
    line.append(" | Ext: ");
    line.append(record.extension.as_str());
    line.append(" | USN: ");
    push_signed(&mut line, record.usn);
    line.append(" | FileRef: ");
    push_hex(&mut line, record.file_reference, 16);
    assert(line@ =~= line_text(timestamp@, record@));
    line
}

/// Whether a file is left out of the report as a system or temporary file.
/// The exclusion is switched off: no name is left out.
pub open spec fn excluded(filename: Seq<char>) -> bool {
    false
}

/// Whether a file is left out of the report as a system or temporary file.
pub fn is_system_or_temp_file(filename: &str) -> (out: bool)
    ensures
        out == excluded(filename@),
{
    false
}

/// A number below ten to the power of one, two or three has at most that
/// many decimal digits, so that padding to such a width gives exactly that
/// width.
pub proof fn lemma_padded_width(n: nat)
    ensures
        decimal_digits(n).len() >= 1,
        n < 100 ==> zero_padded(n, 2).len() == 2,
        n < 1000 ==> zero_padded(n, 3).len() == 3,
{
    reveal_with_fuel(decimal_digits, 4);
}

/// The time of day always takes twelve characters where the milliseconds are
/// below a thousand, and the file reference number always takes `width`
/// digits.
pub proof fn lemma_fixed_widths(total_secs: nat, millis: nat, value: nat, width: nat)
    ensures
        millis < 1000 ==> timestamp_text(total_secs, millis).len() == 12,
        hex_fixed(value, width).len() == width,
    decreases width,
{
    lemma_padded_width((total_secs / 3600) % 24);
    lemma_padded_width((total_secs / 60) % 60);
    lemma_padded_width(total_secs % 60);
    lemma_padded_width(millis);
    if width > 0 {
        lemma_fixed_widths(total_secs, millis, value / 16, (width - 1) as nat);
    }
}

} // verus!
