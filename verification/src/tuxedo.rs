//! The vendor-specific backend: attribute files exposed by the Tuxedo
//! keyboard kernel driver under its platform device.

use vstd::prelude::*;

use crate::brightness::KeyboardBrightness;
use crate::rgb::KeyboardRgb;

verus! {

/// Backend for the vendor-specific kernel driver. Stateless: it only
/// names the attribute files; the kernel holds the hardware state.
#[derive(Clone, Copy, Debug, PartialEq, Eq, Structural)]
pub struct TuxedoKeyboard;

impl KeyboardBrightness for TuxedoKeyboard {
    open spec fn spec_brightness_path(&self) -> Seq<char> {
        "/sys/devices/platform/tuxedo_keyboard/leds/rgb:kbd_backlight/brightness"@
    }

    open spec fn spec_max_brightness_path(&self) -> Seq<char> {
        "/sys/devices/platform/tuxedo_keyboard/leds/rgb:kbd_backlight/max_brightness"@
    }

    fn brightness_path(&self) -> (path: &'static str) {
        "/sys/devices/platform/tuxedo_keyboard/leds/rgb:kbd_backlight/brightness"
    }

    fn max_brightness_path(&self) -> (path: &'static str) {
        "/sys/devices/platform/tuxedo_keyboard/leds/rgb:kbd_backlight/max_brightness"
    }
}

impl KeyboardRgb for TuxedoKeyboard {
    open spec fn spec_rgb_path(&self) -> Seq<char> {
        "/sys/devices/platform/tuxedo_keyboard/leds/rgb:kbd_backlight/multi_intensity"@
    }

    fn rgb_path(&self) -> (path: &'static str) {
        "/sys/devices/platform/tuxedo_keyboard/leds/rgb:kbd_backlight/multi_intensity"
    }
}

} // verus!
