//! RGB color control: the color triple and the exact byte format of the
//! `multi_intensity` attribute.

use vstd::prelude::*;

use crate::codec::dec_of;
use crate::codec::digits_of;
use crate::codec::is_digit;
use crate::codec::is_space;
use crate::codec::is_u8_numeral;
use crate::codec::lemma_dec_of;
use crate::codec::lemma_triple_tokens;
use crate::codec::numeral_value;
use crate::codec::parse_u8_numeral;
use crate::codec::split_tokens;
use crate::codec::tokens;
use crate::codec;
use crate::error::M4ArchError;

verus! {

/// A color triple, passed to and from the device unchanged.
#[derive(Clone, Copy, Debug, PartialEq, Eq, Structural)]
pub struct Rgb {
    pub r: u8,
    pub g: u8,
    pub b: u8,
}

/// RGB color capability of a backend: where its color attribute lives.
pub trait KeyboardRgb {
    /// The color attribute path, as a value contracts can speak of.
    spec fn spec_rgb_path(&self) -> Seq<char>;

    /// The path of the attribute file that holds the color triple.
    fn rgb_path(&self) -> (path: &'static str)
        ensures
            path@ == self.spec_rgb_path(),
    ;
}

/// Color attribute content is readable: at least three whitespace-
/// separated tokens, the first three being eight-bit numerals. Extra
/// tokens beyond the third are ignored.
pub open spec fn rgb_text_valid(s: Seq<u8>) -> bool {
    let ts = tokens(s);
    &&& ts.len() >= 3
    &&& is_u8_numeral(ts[0])
    &&& is_u8_numeral(ts[1])
    &&& is_u8_numeral(ts[2])
}

/// The triple that readable color attribute content denotes, in r, g, b
/// order.
pub open spec fn rgb_text_value(s: Seq<u8>) -> Rgb {
    let ts = tokens(s);
    Rgb {
        r: numeral_value(ts[0]) as u8,
        g: numeral_value(ts[1]) as u8,
        b: numeral_value(ts[2]) as u8,
    }
}

/// The bytes a color write sends: the three decimal numerals joined by
/// single spaces, nothing else.
pub open spec fn rgb_bytes(rgb: Rgb) -> Seq<u8> {
    dec_of(rgb.r as nat) + seq![32u8] + dec_of(rgb.g as nat) + seq![32u8] + dec_of(rgb.b as nat)
}

/// Interpret color attribute content as a triple, exactly as a color
/// read does.
pub fn get_rgb(content: &[u8]) -> (result: Result<Rgb, M4ArchError>)
    ensures
        match result {
            Ok(rgb) => rgb_text_valid(content@) && rgb == rgb_text_value(content@),
            Err(e) => !rgb_text_valid(content@) && e == M4ArchError::InvalidValue,
        },
{
    let toks = split_tokens(content);
    if toks.len() < 3 {
        return Err(M4ArchError::InvalidValue);
    }
    let first = parse_u8_numeral(toks[0].as_slice());
    let second = parse_u8_numeral(toks[1].as_slice());
    let third = parse_u8_numeral(toks[2].as_slice());
    match (first, second, third) {
        (Some(r), Some(g), Some(b)) => Ok(Rgb { r, g, b }),
        _ => Err(M4ArchError::InvalidValue),
    }
}

/// Render a triple as the bytes a color write sends.
pub fn set_rgb(rgb: Rgb) -> (content: Vec<u8>)
    ensures
        content@ == rgb_bytes(rgb),
{
    let mut content = codec::dec_digits(rgb.r);
    content.push(32);
    let mut green_part = codec::dec_digits(rgb.g);
    content.append(&mut green_part);
    content.push(32);
    let mut blue_part = codec::dec_digits(rgb.b);
    content.append(&mut blue_part);
    proof {
        assert(content@ =~= rgb_bytes(rgb));
    }
    content
}

/// Writing a triple and reading the same bytes back yields the triple
/// that was written, whenever the backing attribute file echoes written
/// content faithfully.
pub proof fn lemma_rgb_round_trip(rgb: Rgb)
    ensures
        rgb_text_valid(rgb_bytes(rgb)),
        rgb_text_value(rgb_bytes(rgb)) == rgb,
{
    lemma_dec_of(rgb.r as nat);
    lemma_dec_of(rgb.g as nat);
    lemma_dec_of(rgb.b as nat);
    let x = dec_of(rgb.r as nat);
    let y = dec_of(rgb.g as nat);
    let z = dec_of(rgb.b as nat);
    assert forall|i: int| 0 <= i < x.len() implies !is_space(#[trigger] x[i]) by {
        assert(is_digit(x[i]));
    }
    assert forall|i: int| 0 <= i < y.len() implies !is_space(#[trigger] y[i]) by {
        assert(is_digit(y[i]));
    }
    assert forall|i: int| 0 <= i < z.len() implies !is_space(#[trigger] z[i]) by {
        assert(is_digit(z[i]));
    }
    lemma_triple_tokens(x, y, z);
    assert(is_digit(x[0]));
    assert(is_digit(y[0]));
    assert(is_digit(z[0]));
    assert(digits_of(x) == x);
    assert(digits_of(y) == y);
    assert(digits_of(z) == z);
}

} // verus!
