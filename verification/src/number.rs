//! Numeric tokens with a scale suffix, as they stand in device values, in model
//! parameters and in frequencies: `10k`, `2.5meg`, `1u`, `100khz`.
//!
//! A token is split into its numeral and its scale. The numeral is kept as text.

use crate::text::{chars_of, is_space, lower, lowercase, string_of, to_lowercase, trim, trim_slice};
use vstd::prelude::*;

verus! {

/// The factor that a suffix stands for.
#[derive(Debug, Clone, Copy, PartialEq, Eq)]
pub enum Scale {
    /// `f`, 1e-15
    Femto,
    /// `p`, 1e-12
    Pico,
    /// `n`, 1e-9
    Nano,
    /// `u`, 1e-6
    Micro,
    /// `m`, 1e-3
    Milli,
    /// no suffix, 1
    One,
    /// `k`, 1e3
    Kilo,
    /// `meg`, and `m` of a frequency, 1e6
    Mega,
    /// `g`, 1e9
    Giga,
    /// `t`, 1e12
    Tera,
    /// `mil`, 25.4e-6
    Mil,
}

/// The meaning of the single letters at the end of a token.
#[derive(Debug, Clone, Copy, PartialEq, Eq)]
pub enum Letters {
    /// `f p n u m k g t`, where `m` is milli.
    Si,
    /// `g m k` of a frequency, where `m` is mega.
    Frequency,
    /// `g m k` before `hz`, where `m` is milli.
    Hertz,
}

/// The scale of a letter, `One` for a letter that is no suffix.
pub open spec fn letter_scale(letters: Letters, c: char) -> Scale {
    match letters {
        Letters::Si => if c == 'f' {
            Scale::Femto
        } else if c == 'p' {
            Scale::Pico
        } else if c == 'n' {
            Scale::Nano
        } else if c == 'u' {
            Scale::Micro
        } else if c == 'm' {
            Scale::Milli
        } else if c == 'k' {
            Scale::Kilo
        } else if c == 'g' {
            Scale::Giga
        } else if c == 't' {
            Scale::Tera
        } else {
            Scale::One
        },
        Letters::Frequency => if c == 'g' {
            Scale::Giga
        } else if c == 'm' {
            Scale::Mega
        } else if c == 'k' {
            Scale::Kilo
        } else {
            Scale::One
        },
        Letters::Hertz => if c == 'g' {
            Scale::Giga
        } else if c == 'm' {
            Scale::Milli
        } else if c == 'k' {
            Scale::Kilo
        } else {
            Scale::One
        },
    }
}

fn scale_of_letter(letters: Letters, c: char) -> (scale: Scale)
    ensures
        scale == letter_scale(letters, c),
{
    match letters {
        Letters::Si => match c {
            'f' => Scale::Femto,
            'p' => Scale::Pico,
            'n' => Scale::Nano,
            'u' => Scale::Micro,
            'm' => Scale::Milli,
            'k' => Scale::Kilo,
            'g' => Scale::Giga,
            't' => Scale::Tera,
            _ => Scale::One,
        },
        Letters::Frequency => match c {
            'g' => Scale::Giga,
            'm' => Scale::Mega,
            'k' => Scale::Kilo,
            _ => Scale::One,
        },
        Letters::Hertz => match c {
            'g' => Scale::Giga,
            'm' => Scale::Milli,
            'k' => Scale::Kilo,
            _ => Scale::One,
        },
    }
}

/// A token split into its numeral and its scale.
#[derive(Debug)]
pub struct Scaled {
    pub digits: String,
    pub scale: Scale,
}

/// The view of `Scaled`.
pub struct ScaledView {
    pub digits: Seq<char>,
    pub scale: Scale,
}

impl View for Scaled {
    type V = ScaledView;

    open spec fn view(&self) -> ScaledView {
        ScaledView { digits: self.digits@, scale: self.scale }
    }
}

/// A token as it is read: in lower case and without the white space around it.
pub open spec fn normalized(token: Seq<char>) -> Seq<char> {
    trim(lowercase(token))
}

/// Whether `t` ends in the three given characters.
pub open spec fn ends_with3(t: Seq<char>, a: char, b: char, c: char) -> bool {
    t.len() >= 3 && t[t.len() - 3] == a && t[t.len() - 2] == b && t[t.len() - 1] == c
}

/// Whether `t` ends in the two given characters.
pub open spec fn ends_with2(t: Seq<char>, a: char, b: char) -> bool {
    t.len() >= 2 && t[t.len() - 2] == a && t[t.len() - 1] == b
}

/// `t` split at its last letter, where that letter is a suffix.
pub open spec fn by_letter(letters: Letters, t: Seq<char>) -> ScaledView {
    if t.len() > 0 && !(letter_scale(letters, t.last()) is One) {
        ScaledView { digits: t.drop_last(), scale: letter_scale(letters, t.last()) }
    } else {
        ScaledView { digits: t, scale: Scale::One }
    }
}

/// The value of a device: `meg` is looked for first, then the single letters
/// `f p n u m k g t`.
pub open spec fn device_number(token: Seq<char>) -> ScaledView {
    let t = normalized(token);
    if ends_with3(t, 'm', 'e', 'g') {
        ScaledView { digits: t.take(t.len() - 3), scale: Scale::Mega }
    } else {
        by_letter(Letters::Si, t)
    }
}

/// A parameter of a device model: as the value of a device, with `mil` besides.
pub open spec fn model_number(token: Seq<char>) -> ScaledView {
    let t = normalized(token);
    if ends_with3(t, 'm', 'e', 'g') {
        ScaledView { digits: t.take(t.len() - 3), scale: Scale::Mega }
    } else if ends_with3(t, 'm', 'i', 'l') {
        ScaledView { digits: t.take(t.len() - 3), scale: Scale::Mil }
    } else {
        by_letter(Letters::Si, t)
    }
}

/// A frequency: `meg`; or `hz`, before which `g`, `m` (milli) or `k` may stand; or one
/// of the letters `g`, `m` (mega), `k`.
pub open spec fn frequency_number(token: Seq<char>) -> ScaledView {
    let t = normalized(token);
    if ends_with3(t, 'm', 'e', 'g') {
        ScaledView { digits: t.take(t.len() - 3), scale: Scale::Mega }
    } else if ends_with2(t, 'h', 'z') {
        by_letter(Letters::Hertz, t.take(t.len() - 2))
    } else {
        by_letter(Letters::Frequency, t)
    }
}

fn has_suffix3(t: &[char], a: char, b: char, c: char) -> (r: bool)
    ensures
        r == ends_with3(t@, a, b, c),
{
    let n = t.len();
    n >= 3 && t[n - 3] == a && t[n - 2] == b && t[n - 1] == c
}

fn split_by_letter(letters: Letters, t: &[char]) -> (out: Scaled)
    ensures
        out@ == by_letter(letters, t@),
{
    let n = t.len();
    if n > 0 {
        let scale = scale_of_letter(letters, t[n - 1]);
        if !matches!(scale, Scale::One) {
            return Scaled { digits: string_of(&t[0..n - 1]), scale: scale };
        }
    }
    Scaled { digits: string_of(t), scale: Scale::One }
}

fn cut3(t: &[char], scale: Scale) -> (out: Scaled)
    requires
        t.len() >= 3,
    ensures
        out@ == (ScaledView { digits: t@.take(t.len() - 3), scale }),
{
    Scaled { digits: string_of(&t[0..t.len() - 3]), scale: scale }
}

/// Splits the value of a device.
pub fn split_device_number(token: &str) -> (out: Scaled)
    ensures
        out@ == device_number(token@),
{
    let chars = chars_of(token);
    let low = to_lowercase(chars.as_slice());
    let t = trim_slice(low.as_slice());
    if has_suffix3(t, 'm', 'e', 'g') {
        cut3(t, Scale::Mega)
    } else {
        split_by_letter(Letters::Si, t)
    }
}

/// Splits a parameter of a device model.
pub fn split_model_number(token: &str) -> (out: Scaled)
    ensures
        out@ == model_number(token@),
{
    let chars = chars_of(token);
    let low = to_lowercase(chars.as_slice());
    let t = trim_slice(low.as_slice());
    if has_suffix3(t, 'm', 'e', 'g') {
        cut3(t, Scale::Mega)
    } else if has_suffix3(t, 'm', 'i', 'l') {
        cut3(t, Scale::Mil)
    } else {
        split_by_letter(Letters::Si, t)
    }
}

/// Splits a frequency.
pub fn split_frequency(token: &str) -> (out: Scaled)
    ensures
        out@ == frequency_number(token@),
{
    let chars = chars_of(token);
    let low = to_lowercase(chars.as_slice());
    let t = trim_slice(low.as_slice());
    let n = t.len();
    if has_suffix3(t, 'm', 'e', 'g') {
        cut3(t, Scale::Mega)
    } else if n >= 2 && t[n - 2] == 'h' && t[n - 1] == 'z' {
        split_by_letter(Letters::Hertz, &t[0..n - 2])
    } else {
        split_by_letter(Letters::Frequency, t)
    }
}

/// The suffix that a scale is written with in the value of a device.
pub open spec fn suffix_text(scale: Scale) -> Seq<char> {
    match scale {
        Scale::Femto => seq!['f'],
        Scale::Pico => seq!['p'],
        Scale::Nano => seq!['n'],
        Scale::Micro => seq!['u'],
        Scale::Milli => seq!['m'],
        Scale::One => Seq::empty(),
        Scale::Kilo => seq!['k'],
        Scale::Mega => seq!['m', 'e', 'g'],
        Scale::Giga => seq!['g'],
        Scale::Tera => seq!['t'],
        Scale::Mil => seq!['m', 'i', 'l'],
    }
}

/// The characters of a plain numeral: digits, the point and the signs.
pub open spec fn is_numeral_char(c: char) -> bool {
    ('0' <= c && c <= '9') || c == '.' || c == '-' || c == '+'
}

/// A plain numeral: numeral characters, the last of them a digit.
pub open spec fn is_numeral(d: Seq<char>) -> bool {
    &&& d.len() > 0
    &&& forall|i: int| 0 <= i < d.len() ==> is_numeral_char(#[trigger] d[i])
    &&& '0' <= d.last() && d.last() <= '9'
}

/// Writing and reading a scale agree: a plain numeral followed by the suffix of a
/// scale is split into that numeral and that scale.
pub proof fn lemma_suffix_round_trip(d: Seq<char>, scale: Scale)
    requires
        is_numeral(d),
        !(scale is Mil),
    ensures
        device_number(d + suffix_text(scale)) == (ScaledView { digits: d, scale }),
        model_number(d + suffix_text(scale)) == (ScaledView { digits: d, scale }),
{
    let suffix = suffix_text(scale);
    let token = d + suffix;
    assert forall|i: int| 0 <= i < token.len() implies lower(#[trigger] token[i]) == token[i]
        && !is_space(token[i]) by {
    }
    assert(normalized(token) == token);
    let n = token.len() as int;
    if suffix.len() == 3 {
        assert(token.take(n - 3) =~= d);
    } else if suffix.len() == 1 {
        assert(token.drop_last() =~= d);
    }
}

} // verus!
