//! Device discovery and the public facade: one function per operation,
//! each the pure half of a resolve-then-delegate call. Callers check
//! which attribute paths exist, read or write the files, and pass raw
//! content in and out; everything decided here is proved.

use vstd::prelude::*;

use crate::brightness::KeyboardBrightness;
use crate::codec;
use crate::error::IoErrorKind;
use crate::error::M4ArchError;
use crate::rgb::KeyboardRgb;
use crate::rgb::Rgb;
use crate::rgb::rgb_bytes;
use crate::rgb::rgb_text_valid;
use crate::rgb::rgb_text_value;
use crate::sysfs::SysfsKeyboard;
use crate::tuxedo::TuxedoKeyboard;

verus! {

/// A transient handle naming the backend that discovery selected. It
/// owns no hardware state and is discarded after each operation; the
/// kernel attribute files are the sole source of truth.
#[derive(Clone, Copy, Debug, PartialEq, Eq, Structural)]
pub enum KeyboardController {
    /// The vendor-specific kernel driver was found.
    Tuxedo(TuxedoKeyboard),
    /// The generic LED-class subsystem was found.
    Sysfs(SysfsKeyboard),
}

impl KeyboardBrightness for KeyboardController {
    open spec fn spec_brightness_path(&self) -> Seq<char> {
        match self {
            KeyboardController::Tuxedo(k) => k.spec_brightness_path(),
            KeyboardController::Sysfs(k) => k.spec_brightness_path(),
        }
    }

    open spec fn spec_max_brightness_path(&self) -> Seq<char> {
        match self {
            KeyboardController::Tuxedo(k) => k.spec_max_brightness_path(),
            KeyboardController::Sysfs(k) => k.spec_max_brightness_path(),
        }
    }

    fn brightness_path(&self) -> (path: &'static str) {
        match self {
            KeyboardController::Tuxedo(k) => k.brightness_path(),
            KeyboardController::Sysfs(k) => k.brightness_path(),
        }
    }

    fn max_brightness_path(&self) -> (path: &'static str) {
        match self {
            KeyboardController::Tuxedo(k) => k.max_brightness_path(),
            KeyboardController::Sysfs(k) => k.max_brightness_path(),
        }
    }
}

impl KeyboardRgb for KeyboardController {
    open spec fn spec_rgb_path(&self) -> Seq<char> {
        match self {
            KeyboardController::Tuxedo(k) => k.spec_rgb_path(),
            KeyboardController::Sysfs(k) => k.spec_rgb_path(),
        }
    }

    fn rgb_path(&self) -> (path: &'static str) {
        match self {
            KeyboardController::Tuxedo(k) => k.rgb_path(),
            KeyboardController::Sysfs(k) => k.rgb_path(),
        }
    }
}

/// The discovery policy: the vendor-specific driver wins when its
/// brightness attribute exists, the generic one is the fallback, and
/// nothing else is ever selected.
pub open spec fn selected_driver(tuxedo_present: bool, generic_present: bool) -> Option<
    KeyboardController,
> {
    if tuxedo_present {
        Some(KeyboardController::Tuxedo(TuxedoKeyboard))
    } else if generic_present {
        Some(KeyboardController::Sysfs(SysfsKeyboard))
    } else {
        None
    }
}

/// Select a backend from which brightness attribute paths exist, in the
/// fixed priority order: vendor-specific first, generic second, none
/// otherwise. Existence is the only criterion; no file is touched.
pub fn get_keyboard(tuxedo_present: bool, generic_present: bool) -> (driver: Option<
    KeyboardController,
>)
    ensures
        driver == selected_driver(tuxedo_present, generic_present),
{
    if tuxedo_present {
        Some(KeyboardController::Tuxedo(TuxedoKeyboard))
    } else if generic_present {
        Some(KeyboardController::Sysfs(SysfsKeyboard))
    } else {
        None
    }
}

/// Like [`get_keyboard`], but reports the absence of any backend as the
/// not-found condition the facade surfaces before touching any file.
pub fn get_controller(tuxedo_present: bool, generic_present: bool) -> (result: Result<
    KeyboardController,
    M4ArchError,
>)
    ensures
        match result {
            Ok(c) => Some(c) == selected_driver(tuxedo_present, generic_present),
            Err(e) => !tuxedo_present && !generic_present && e == M4ArchError::Io(
                IoErrorKind::NotFound,
            ),
        },
{
    match get_keyboard(tuxedo_present, generic_present) {
        Some(c) => Ok(c),
        None => Err(M4ArchError::Io(IoErrorKind::NotFound)),
    }
}

/// Interpret the content of the brightness attribute: surrounding
/// whitespace is trimmed, the rest must be a decimal numeral no larger
/// than 255, and anything else is the invalid-value error.
pub fn get_brightness(content: &[u8]) -> (result: Result<u8, M4ArchError>)
    ensures
        match result {
            Ok(v) => codec::is_u8_numeral(codec::trim(content@)) && v == codec::numeral_value(
                codec::trim(content@),
            ),
            Err(e) => !codec::is_u8_numeral(codec::trim(content@)) && e
                == M4ArchError::InvalidValue,
        },
{
    match codec::parse_attr_u8(content) {
        Some(v) => Ok(v),
        None => Err(M4ArchError::InvalidValue),
    }
}

/// Interpret the content of the maximum-brightness attribute; the
/// format is the same as for the brightness attribute.
pub fn get_max_brightness(content: &[u8]) -> (result: Result<u8, M4ArchError>)
    ensures
        match result {
            Ok(v) => codec::is_u8_numeral(codec::trim(content@)) && v == codec::numeral_value(
                codec::trim(content@),
            ),
            Err(e) => !codec::is_u8_numeral(codec::trim(content@)) && e
                == M4ArchError::InvalidValue,
        },
{
    match codec::parse_attr_u8(content) {
        Some(v) => Ok(v),
        None => Err(M4ArchError::InvalidValue),
    }
}

/// The bytes a brightness write sends: the plain decimal numeral of
/// `level`, no sign, no whitespace, no trailing newline.
pub fn set_brightness(level: u8) -> (content: Vec<u8>)
    ensures
        content@ == codec::dec_of(level as nat),
{
    codec::dec_digits(level)
}

/// Interpret color attribute content as an (r, g, b) triple.
pub fn get_rgb_color(content: &[u8]) -> (result: Result<(u8, u8, u8), M4ArchError>)
    ensures
        match result {
            Ok(t) => rgb_text_valid(content@) && (Rgb { r: t.0, g: t.1, b: t.2 })
                == rgb_text_value(content@),
            Err(e) => !rgb_text_valid(content@) && e == M4ArchError::InvalidValue,
        },
{
    match crate::rgb::get_rgb(content) {
        Ok(c) => Ok((c.r, c.g, c.b)),
        Err(e) => Err(e),
    }
}

/// The bytes a color write sends for the triple (r, g, b).
pub fn set_rgb_color(r: u8, g: u8, b: u8) -> (content: Vec<u8>)
    ensures
        content@ == rgb_bytes((Rgb { r, g, b })),
{
    crate::rgb::set_rgb(Rgb { r, g, b })
}

/// Writing a brightness level and reading the same bytes back yields
/// the level that was written, whenever the backing attribute file
/// echoes written content faithfully.
pub proof fn lemma_brightness_round_trip(level: u8)
    ensures
        codec::is_u8_numeral(codec::trim(codec::dec_of(level as nat))),
        codec::numeral_value(codec::trim(codec::dec_of(level as nat))) == level,
{
    codec::lemma_u8_numeral_round_trip(level);
}

} // verus!
