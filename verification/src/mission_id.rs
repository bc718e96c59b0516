//! Mission identifiers and their text form.

use vstd::prelude::*;
use crate::text::from_chars;
use crate::text::to_chars;

verus! {

/// Identifies one mission: the value of a UUID.
#[derive(Clone, Copy, Debug, PartialEq, Eq, Hash, Structural)]
pub struct MissionId {
    pub value: u128,
}

/// Why a text is no mission identifier.
#[derive(Clone, Copy, Debug, PartialEq, Eq, Structural)]
pub struct InvalidMissionId;

/// The `k`-th hexadecimal digit of `v`, the most significant being digit 0.
pub open spec fn hex_value(v: u128, k: int) -> u128 {
    (v >> ((4 * (31 - k)) as u128)) & 0xf
}

/// The character of a hexadecimal digit, in lower case.
pub open spec fn hex_char(d: u128) -> char {
    if d < 10 {
        ('0' as u32 + d) as char
    } else {
        ('a' as u32 + (d - 10)) as char
    }
}

/// The digits of a UUID without hyphens.
pub open spec fn simple_form(v: u128) -> Seq<char> {
    Seq::new(32, |i: int| hex_char(hex_value(v, i)))
}

/// The digits of a UUID in groups of 8, 4, 4, 4 and 12.
pub open spec fn hyphenated_form(v: u128) -> Seq<char> {
    let s = simple_form(v);
    s.subrange(0, 8) + seq!['-'] + s.subrange(8, 12) + seq!['-'] + s.subrange(12, 16) + seq!['-']
        + s.subrange(16, 20) + seq!['-'] + s.subrange(20, 32)
}

/// Whether `s`, letters taken in either case, is one of the notations of the UUID `v`:
/// plain digits, hyphenated, hyphenated in braces, or hyphenated behind `urn:uuid:`.
pub open spec fn denotes(s: Seq<char>, v: u128) -> bool {
    let lower = s.map_values(|c: char| crate::text::ascii_lower(c));
    ||| lower == simple_form(v)
    ||| lower == hyphenated_form(v)
    ||| lower == seq!['{'] + hyphenated_form(v) + seq!['}']
    ||| lower == seq!['u', 'r', 'n', ':', 'u', 'u', 'i', 'd', ':'] + hyphenated_form(v)
}

/// `uuid::Uuid::parse_str`: the value of a UUID in one of its notations, and nothing
/// where the text is in none of them.
#[verifier::external_body]
fn parse_uuid(s: &str) -> (r: Option<u128>)
    ensures
        match r {
            Some(v) => denotes(s@, v),
            None => forall|v: u128| !denotes(s@, v),
        },
{
    match uuid::Uuid::parse_str(s) {
        Ok(parsed) => Some(parsed.as_u128()),
        Err(_) => None,
    }
}

/// The text of a UUID as `uuid::fmt::Hyphenated` writes it: in lower case, hyphenated.
#[verifier::external_body]
fn hyphenated_uuid(v: u128) -> (r: String)
    ensures
        r@ == hyphenated_form(v),
{
    uuid::Uuid::from_u128(v).hyphenated().to_string()
}

impl MissionId {
    /// The identifier that `value` denotes, in any of the notations of a UUID.
    pub fn from_key_string(value: &str) -> (r: Result<Self, InvalidMissionId>)
        ensures
            match r {
                Ok(id) => denotes(value@, id.value),
                Err(_) => forall|v: u128| !denotes(value@, v),
            },
    {
        match parse_uuid(value) {
            Some(value) => Ok(MissionId { value }),
            None => Err(InvalidMissionId),
        }
    }

    /// The text form of the identifier, which `from_key_string` reads back.
    pub fn to_key_string(&self) -> (r: String)
        ensures
            r@ == hyphenated_form(self.value),
    {
        hyphenated_uuid(self.value)
    }
}

proof fn hex_digits_determine_the_value(v: u128, w: u128)
    requires
        forall|k: int| 0 <= k < 32 ==> #[trigger] hex_value(v, k) == hex_value(w, k),
    ensures
        v == w,
{
    assert(hex_value(v, 0) == hex_value(w, 0));
    assert(hex_value(v, 1) == hex_value(w, 1));
    assert(hex_value(v, 2) == hex_value(w, 2));
    assert(hex_value(v, 3) == hex_value(w, 3));
    assert(hex_value(v, 4) == hex_value(w, 4));
    assert(hex_value(v, 5) == hex_value(w, 5));
    assert(hex_value(v, 6) == hex_value(w, 6));
    assert(hex_value(v, 7) == hex_value(w, 7));
    assert(hex_value(v, 8) == hex_value(w, 8));
    assert(hex_value(v, 9) == hex_value(w, 9));
    assert(hex_value(v, 10) == hex_value(w, 10));
    assert(hex_value(v, 11) == hex_value(w, 11));
    assert(hex_value(v, 12) == hex_value(w, 12));
    assert(hex_value(v, 13) == hex_value(w, 13));
    assert(hex_value(v, 14) == hex_value(w, 14));
    assert(hex_value(v, 15) == hex_value(w, 15));
    assert(hex_value(v, 16) == hex_value(w, 16));
    assert(hex_value(v, 17) == hex_value(w, 17));
    assert(hex_value(v, 18) == hex_value(w, 18));
    assert(hex_value(v, 19) == hex_value(w, 19));
    assert(hex_value(v, 20) == hex_value(w, 20));
    assert(hex_value(v, 21) == hex_value(w, 21));
    assert(hex_value(v, 22) == hex_value(w, 22));
    assert(hex_value(v, 23) == hex_value(w, 23));
    assert(hex_value(v, 24) == hex_value(w, 24));
    assert(hex_value(v, 25) == hex_value(w, 25));
    assert(hex_value(v, 26) == hex_value(w, 26));
    assert(hex_value(v, 27) == hex_value(w, 27));
    assert(hex_value(v, 28) == hex_value(w, 28));
    assert(hex_value(v, 29) == hex_value(w, 29));
    assert(hex_value(v, 30) == hex_value(w, 30));
    assert(hex_value(v, 31) == hex_value(w, 31));
    assert(v == w) by (bit_vector)
        requires
            (v >> 124u128) & 0xf == (w >> 124u128) & 0xf,
            (v >> 120u128) & 0xf == (w >> 120u128) & 0xf,
            (v >> 116u128) & 0xf == (w >> 116u128) & 0xf,
            (v >> 112u128) & 0xf == (w >> 112u128) & 0xf,
            (v >> 108u128) & 0xf == (w >> 108u128) & 0xf,
            (v >> 104u128) & 0xf == (w >> 104u128) & 0xf,
            (v >> 100u128) & 0xf == (w >> 100u128) & 0xf,
            (v >> 96u128) & 0xf == (w >> 96u128) & 0xf,
            (v >> 92u128) & 0xf == (w >> 92u128) & 0xf,
            (v >> 88u128) & 0xf == (w >> 88u128) & 0xf,
            (v >> 84u128) & 0xf == (w >> 84u128) & 0xf,
            (v >> 80u128) & 0xf == (w >> 80u128) & 0xf,
            (v >> 76u128) & 0xf == (w >> 76u128) & 0xf,
            (v >> 72u128) & 0xf == (w >> 72u128) & 0xf,
            (v >> 68u128) & 0xf == (w >> 68u128) & 0xf,
            (v >> 64u128) & 0xf == (w >> 64u128) & 0xf,
            (v >> 60u128) & 0xf == (w >> 60u128) & 0xf,
            (v >> 56u128) & 0xf == (w >> 56u128) & 0xf,
            (v >> 52u128) & 0xf == (w >> 52u128) & 0xf,
            (v >> 48u128) & 0xf == (w >> 48u128) & 0xf,
            (v >> 44u128) & 0xf == (w >> 44u128) & 0xf,
            (v >> 40u128) & 0xf == (w >> 40u128) & 0xf,
            (v >> 36u128) & 0xf == (w >> 36u128) & 0xf,
            (v >> 32u128) & 0xf == (w >> 32u128) & 0xf,
            (v >> 28u128) & 0xf == (w >> 28u128) & 0xf,
            (v >> 24u128) & 0xf == (w >> 24u128) & 0xf,
            (v >> 20u128) & 0xf == (w >> 20u128) & 0xf,
            (v >> 16u128) & 0xf == (w >> 16u128) & 0xf,
            (v >> 12u128) & 0xf == (w >> 12u128) & 0xf,
            (v >> 8u128) & 0xf == (w >> 8u128) & 0xf,
            (v >> 4u128) & 0xf == (w >> 4u128) & 0xf,
            (v >> 0u128) & 0xf == (w >> 0u128) & 0xf,
    ;
}

proof fn hex_digit_bound(v: u128, k: int)
    ensures
        hex_value(v, k) < 16,
{
    let shifted = v >> ((4 * (31 - k)) as u128);
    assert(shifted & 0xf < 16) by (bit_vector);
}

proof fn simple_form_determines_the_value(v: u128, w: u128)
    requires
        simple_form(v) == simple_form(w),
    ensures
        v == w,
{
    assert forall|k: int| 0 <= k < 32 implies #[trigger] hex_value(v, k) == hex_value(w, k) by {
        hex_digit_bound(v, k);
        hex_digit_bound(w, k);
        assert(simple_form(v)[k] == hex_char(hex_value(v, k)));
        assert(simple_form(w)[k] == hex_char(hex_value(w, k)));
        assert(hex_char(hex_value(v, k)) == hex_char(hex_value(w, k)));
    }
    hex_digits_determine_the_value(v, w);
}

proof fn hyphenated_form_determines_the_value(v: u128, w: u128)
    requires
        hyphenated_form(v) == hyphenated_form(w),
    ensures
        v == w,
{
    let s = simple_form(v);
    let t = simple_form(w);
    let h = hyphenated_form(v);
    assert(s.subrange(0, 8) =~= h.subrange(0, 8) && t.subrange(0, 8) =~= h.subrange(0, 8));
    assert(s.subrange(8, 12) =~= h.subrange(9, 13) && t.subrange(8, 12) =~= h.subrange(9, 13));
    assert(s.subrange(12, 16) =~= h.subrange(14, 18) && t.subrange(12, 16) =~= h.subrange(14, 18));
    assert(s.subrange(16, 20) =~= h.subrange(19, 23) && t.subrange(16, 20) =~= h.subrange(19, 23));
    assert(s.subrange(20, 32) =~= h.subrange(24, 36) && t.subrange(20, 32) =~= h.subrange(24, 36));
    assert(s =~= s.subrange(0, 8) + s.subrange(8, 12) + s.subrange(12, 16) + s.subrange(16, 20)
        + s.subrange(20, 32));
    assert(t =~= t.subrange(0, 8) + t.subrange(8, 12) + t.subrange(12, 16) + t.subrange(16, 20)
        + t.subrange(20, 32));
    simple_form_determines_the_value(v, w);
}

proof fn hyphenated_form_is_lower_case(v: u128)
    ensures
        hyphenated_form(v).len() == 36,
        hyphenated_form(v).map_values(|c: char| crate::text::ascii_lower(c)) == hyphenated_form(v),
{
    let h = hyphenated_form(v);
    assert forall|i: int| 0 <= i < 36 implies crate::text::ascii_lower(#[trigger] h[i]) == h[i] by {
        let k = if i < 8 { i } else if i < 13 { i - 1 } else if i < 18 { i - 2 } else if i < 23 {
            i - 3
        } else { i - 4 };
        hex_digit_bound(v, k);
        if i != 8 && i != 13 && i != 18 && i != 23 {
            assert(h[i] == hex_char(hex_value(v, k)));
        }
    }
    assert(h.map_values(|c: char| crate::text::ascii_lower(c)) =~= h);
}

/// A text denotes at most one identifier.
pub proof fn a_text_denotes_one_identifier(s: Seq<char>, v: u128, w: u128)
    requires
        denotes(s, v),
        denotes(s, w),
    ensures
        v == w,
{
    hyphenated_form_is_lower_case(v);
    hyphenated_form_is_lower_case(w);
    let lower = s.map_values(|c: char| crate::text::ascii_lower(c));
    let hv = hyphenated_form(v);
    let hw = hyphenated_form(w);
    assert(lower.len() == s.len());
    if s.len() == 32 {
        assert(lower == simple_form(v));
        assert(lower == simple_form(w));
        simple_form_determines_the_value(v, w);
    } else if s.len() == 36 {
        hyphenated_form_determines_the_value(v, w);
    } else if s.len() == 38 {
        assert(hv =~= lower.subrange(1, 37));
        assert(hw =~= lower.subrange(1, 37));
        hyphenated_form_determines_the_value(v, w);
    } else {
        assert(hv =~= lower.subrange(9, 45));
        assert(hw =~= lower.subrange(9, 45));
        hyphenated_form_determines_the_value(v, w);
    }
}

/// An identifier round-trips through its key string: `to_key_string` writes a text that
/// denotes the identifier, and no other.
pub proof fn key_string_round_trips(id: MissionId)
    ensures
        denotes(hyphenated_form(id.value), id.value),
        forall|v: u128| denotes(hyphenated_form(id.value), v) ==> v == id.value,
{
    hyphenated_form_is_lower_case(id.value);
    assert forall|v: u128| denotes(hyphenated_form(id.value), v) implies v == id.value by {
        a_text_denotes_one_identifier(hyphenated_form(id.value), id.value, v);
    }
}

/// The first eight digits of an identifier, enough to tell missions apart on screen.
pub fn short_mission_id(id: &MissionId) -> (r: String)
    ensures
        r@ == hyphenated_form(id.value).take(8),
{
    let text = id.to_key_string();
    let chars = to_chars(text.as_str());
    proof {
        hyphenated_form_is_lower_case(id.value);
    }
    assert(chars@.subrange(0, 8) =~= hyphenated_form(id.value).take(8));
    from_chars(&chars, 0, 8)
}

} // verus!
