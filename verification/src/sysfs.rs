//! The generic backend: attribute files exposed by the LED-class
//! subsystem. This path is often a symlink alias for the same physical
//! LED the vendor driver exposes, which is why discovery tries the
//! vendor path first.

use vstd::prelude::*;

use crate::brightness::KeyboardBrightness;
use crate::rgb::KeyboardRgb;

verus! {

/// Backend for the generic LED-class subsystem. Stateless: it only
/// names the attribute files; the kernel holds the hardware state.
#[derive(Clone, Copy, Debug, PartialEq, Eq, Structural)]
pub struct SysfsKeyboard;

impl KeyboardBrightness for SysfsKeyboard {
    open spec fn spec_brightness_path(&self) -> Seq<char> {
        "/sys/class/leds/rgb:kbd_backlight/brightness"@
    }

    open spec fn spec_max_brightness_path(&self) -> Seq<char> {
        "/sys/class/leds/rgb:kbd_backlight/max_brightness"@
    }

    fn brightness_path(&self) -> (path: &'static str) {
        "/sys/class/leds/rgb:kbd_backlight/brightness"
    }

    fn max_brightness_path(&self) -> (path: &'static str) {
        "/sys/class/leds/rgb:kbd_backlight/max_brightness"
    }
}

impl KeyboardRgb for SysfsKeyboard {
    open spec fn spec_rgb_path(&self) -> Seq<char> {
        "/sys/class/leds/rgb:kbd_backlight/multi_intensity"@
    }

    fn rgb_path(&self) -> (path: &'static str) {
        "/sys/class/leds/rgb:kbd_backlight/multi_intensity"
    }
}

} // verus!
