//! Defensive decoding of UTF-16 file names.

use vstd::prelude::*;

verus! {

/// What stands in for a code unit that is no part of a valid pair.
pub const REPLACEMENT: char = '\u{FFFD}';

/// The first unit of a surrogate pair.
pub open spec fn is_lead(unit: u16) -> bool {
    0xD800 <= unit <= 0xDBFF
}

/// The second unit of a surrogate pair.
pub open spec fn is_trail(unit: u16) -> bool {
    0xDC00 <= unit <= 0xDFFF
}

/// The scalar value that a surrogate pair encodes.
pub open spec fn pair_scalar(lead: u16, trail: u16) -> int {
    0x10000 + (lead - 0xD800) * 0x400 + (trail - 0xDC00)
}

/// The text that a sequence of UTF-16 code units stands for. A lead unit
/// followed by a trail unit is one character; any other surrogate unit is
/// replaced by U+FFFD; every other unit is the character of that value.
pub open spec fn decode_lossy(units: Seq<u16>) -> Seq<char>
    decreases units.len(),
{
    if units.len() == 0 {
        Seq::empty()
    } else if is_lead(units[0]) && units.len() >= 2 && is_trail(units[1]) {
        seq![pair_scalar(units[0], units[1]) as char] + decode_lossy(units.skip(2))
    } else if is_lead(units[0]) || is_trail(units[0]) {
        seq![REPLACEMENT] + decode_lossy(units.skip(1))
    } else {
        seq![units[0] as char] + decode_lossy(units.skip(1))
    }
}

/// `char::from_u32` of std: the character with scalar value `value`, where
/// `value` is a Unicode scalar value (at most 0x10FFFF and no surrogate), and
/// `None` for every other number.
pub assume_specification[ char::from_u32 ](value: u32) -> (c: Option<char>)
    ensures
        c == if value <= 0xD7FF || (0xE000 <= value && value <= 0x10FFFF) {
            Some(value as char)
        } else {
            None::<char>
        },
;

/// `String::push` of std: appends one character to the string.
pub assume_specification[ String::push ](text: &mut String, c: char)
    ensures
        final(text)@ == old(text)@.push(c),
;

/// Decodes UTF-16 code units, substituting U+FFFD for each unpaired surrogate.
pub fn decode_utf16_lossy(units: &[u16]) -> (text: Vec<char>)
    ensures
        text@ == decode_lossy(units@),
{
    let mut text: Vec<char> = Vec::new();
    let mut i: usize = 0;
    assert(units@.skip(0) =~= units@);
    assert(text@ + decode_lossy(units@) =~= decode_lossy(units@));
    while i < units.len()
        invariant
            i <= units.len(),
            decode_lossy(units@) == text@ + decode_lossy(units@.skip(i as int)),
        decreases units.len() - i,
    {
        let ghost rest = units@.skip(i as int);
        let ghost before = text@;
        let unit: u16 = units[i];
        assert(rest[0] == unit);
        if 0xD800 <= unit && unit <= 0xDBFF && i + 1 < units.len() && 0xDC00 <= units[i + 1]
            && units[i + 1] <= 0xDFFF {
            let trail: u16 = units[i + 1];
            assert(rest[1] == trail);
            let lead_part: u32 = (unit - 0xD800) as u32;
            let trail_part: u32 = (trail - 0xDC00) as u32;
            let scalar: u32 = 0x10000 + lead_part * 0x400 + trail_part;
            let c = char::from_u32(scalar).unwrap();
            text.push(c);
            assert(rest.skip(2) =~= units@.skip(i as int + 2));
            assert(text@ + decode_lossy(rest.skip(2)) =~= before + decode_lossy(rest));
            i = i + 2;
        } else if 0xD800 <= unit && unit <= 0xDFFF {
            text.push(REPLACEMENT);
            assert(rest.skip(1) =~= units@.skip(i as int + 1));
            assert(text@ + decode_lossy(rest.skip(1)) =~= before + decode_lossy(rest));
            i = i + 1;
        } else {
            let c = char::from_u32(unit as u32).unwrap();
            text.push(c);
            assert(rest.skip(1) =~= units@.skip(i as int + 1));
            assert(text@ + decode_lossy(rest.skip(1)) =~= before + decode_lossy(rest));
            i = i + 1;
        }
    }
    assert(units@.skip(i as int) =~= Seq::<u16>::empty());
    text
}

/// The string with the characters of `chars`, in their order.
pub fn string_of_chars(chars: &[char]) -> (text: String)
    ensures
        text@ == chars@,
{
    let mut text = String::new();
    let mut i: usize = 0;
    while i < chars.len()
        invariant
            i <= chars.len(),
            text@ == chars@.take(i as int),
        decreases chars.len() - i,
    {
        text.push(chars[i]);
        assert(chars@.take(i as int + 1) =~= chars@.take(i as int).push(chars@[i as int]));
        i = i + 1;
    }
    assert(chars@.take(i as int) =~= chars@);
    text
}

/// The characters of `text`, in their order.
pub fn chars_of_str(text: &str) -> (chars: Vec<char>)
    ensures
        chars@ == text@,
{
    let n: usize = text.unicode_len();
    let mut chars: Vec<char> = Vec::new();
    let mut i: usize = 0;
    while i < n
        invariant
            i <= n,
            n == text@.len(),
            chars@ == text@.take(i as int),
        decreases n - i,
    {
        chars.push(text.get_char(i));
        assert(text@.take(i as int + 1) =~= text@.take(i as int).push(text@[i as int]));
        i = i + 1;
    }
    assert(text@.take(i as int) =~= text@);
    chars
}

/// Units among which there is no surrogate decode one for one: each to the
/// character of its value.
pub proof fn lemma_units_without_surrogates(units: Seq<u16>)
    requires
        forall|i: int| 0 <= i < units.len() ==> !is_lead(units[i]) && !is_trail(units[i]),
    ensures
        decode_lossy(units) == Seq::new(units.len(), |i: int| units[i] as char),
    decreases units.len(),
{
    if units.len() > 0 {
        let rest = units.skip(1);
        lemma_units_without_surrogates(rest);
        let decoded = decode_lossy(units);
        assert(decoded =~= seq![units[0] as char] + decode_lossy(rest));
        assert forall|i: int| 0 <= i < units.len() implies decoded[i] == units[i] as char by {
            if i > 0 {
                assert(decoded[i] == decode_lossy(rest)[i - 1]);
                assert(rest[i - 1] == units[i]);
            }
        }
        assert(decoded =~= Seq::new(units.len(), |i: int| units[i] as char));
    } else {
        assert(decode_lossy(units) =~= Seq::new(units.len(), |i: int| units[i] as char));
    }
}

} // verus!
