//! Core logic for a laptop keyboard backlight: reading and changing
//! brightness and RGB color through Linux LED-class attribute files.
//!
//! The library holds everything that can be stated and proved: the exact
//! byte format of the attribute files, the brightness arithmetic, and the
//! driver-selection policy. Callers perform the actual file reads and
//! writes and hand the raw bytes in and out.

pub mod brightness;
pub mod codec;
pub mod error;
pub mod rgb;
pub mod service;
pub mod sysfs;
pub mod tuxedo;

pub use brightness::BrightnessInfo;
pub use brightness::KeyboardBrightness;
pub use brightness::brightness_info;
pub use brightness::calculate_percent;
pub use brightness::decrease_brightness;
pub use brightness::increase_brightness;
pub use error::IoErrorKind;
pub use error::M4ArchError;
pub use rgb::KeyboardRgb;
pub use rgb::Rgb;
pub use rgb::get_rgb;
pub use rgb::set_rgb;
pub use service::KeyboardController;
pub use service::get_brightness;
pub use service::get_controller;
pub use service::get_keyboard;
pub use service::get_max_brightness;
pub use service::get_rgb_color;
pub use service::set_brightness;
pub use service::set_rgb_color;
pub use sysfs::SysfsKeyboard;
pub use tuxedo::TuxedoKeyboard;
