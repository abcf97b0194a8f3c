use m4arch::BrightnessInfo;
use m4arch::IoErrorKind;
use m4arch::KeyboardBrightness;
use m4arch::KeyboardController;
use m4arch::KeyboardRgb;
use m4arch::M4ArchError;
use m4arch::Rgb;
use m4arch::SysfsKeyboard;
use m4arch::TuxedoKeyboard;
use m4arch::brightness_info;
use m4arch::calculate_percent;
use m4arch::decrease_brightness;
use m4arch::get_brightness;
use m4arch::get_controller;
use m4arch::get_keyboard;
use m4arch::get_max_brightness;
use m4arch::get_rgb;
use m4arch::get_rgb_color;
use m4arch::increase_brightness;
use m4arch::set_brightness;
use m4arch::set_rgb;
use m4arch::set_rgb_color;

#[test]
fn test_calculate_percent() {
    assert_eq!(calculate_percent(0, 255), 0);
    assert_eq!(calculate_percent(255, 255), 100);
    assert_eq!(calculate_percent(128, 255), 50);
    assert_eq!(calculate_percent(64, 255), 25);
}

#[test]
fn test_calculate_percent_edge_cases() {
    assert_eq!(calculate_percent(0, 0), 0); // Max 0 should return 0%
    assert_eq!(calculate_percent(10, 0), 0); // Max 0 should return 0%
}

#[test]
fn percent_stays_within_bounds_when_current_at_most_max() {
    assert_eq!(calculate_percent(1, 200), 0);
    assert_eq!(calculate_percent(200, 200), 100);
    assert_eq!(calculate_percent(99, 100), 99);
}

#[test]
fn percent_is_not_clamped_when_current_exceeds_max() {
    // 200 * 100 / 100 == 200: reported as-is.
    assert_eq!(calculate_percent(200, 100), 200);
    // 255 * 100 / 1 == 25500: only the low eight bits fit.
    assert_eq!(calculate_percent(255, 1), 156);
}

#[test]
fn info_reports_is_on_exactly_when_current_positive() {
    assert!(!brightness_info(0, 255).is_on);
    assert!(brightness_info(1, 255).is_on);
    assert!(brightness_info(255, 255).is_on);
    assert!(!brightness_info(0, 0).is_on);
    assert!(brightness_info(10, 0).is_on);
}

#[test]
fn info_composes_all_four_fields() {
    let info = brightness_info(64, 255);
    assert_eq!(
        info,
        BrightnessInfo { current: 64, max: 255, percent: 25, is_on: true }
    );
}

#[test]
fn increase_clamps_to_max_and_never_wraps() {
    assert_eq!(increase_brightness(100, 10, 120), 110);
    assert_eq!(increase_brightness(100, 30, 120), 120);
    // The eight-bit sum would wrap; the result still may not pass max.
    assert_eq!(increase_brightness(250, 10, 255), 255);
    assert_eq!(increase_brightness(250, 100, 200), 200);
    assert_eq!(increase_brightness(0, 0, 0), 0);
    // A device read above max settles back onto max.
    assert_eq!(increase_brightness(200, 0, 100), 100);
}

#[test]
fn decrease_floors_at_zero_and_never_wraps() {
    assert_eq!(decrease_brightness(128, 28), 100);
    assert_eq!(decrease_brightness(10, 10), 0);
    assert_eq!(decrease_brightness(5, 10), 0);
    assert_eq!(decrease_brightness(0, 1), 0);
    assert_eq!(decrease_brightness(255, 255), 0);
}

#[test]
fn brightness_write_format_is_plain_decimal() {
    assert_eq!(set_brightness(0).as_slice(), b"0");
    assert_eq!(set_brightness(7).as_slice(), b"7");
    assert_eq!(set_brightness(42).as_slice(), b"42");
    assert_eq!(set_brightness(128).as_slice(), b"128");
    assert_eq!(set_brightness(255).as_slice(), b"255");
}

#[test]
fn brightness_parse_trims_whitespace() {
    assert_eq!(get_brightness(b" 42 "), Ok(42));
    assert_eq!(get_brightness(b"128\n"), Ok(128));
    assert_eq!(get_brightness(b"\t\n 7 \r\n"), Ok(7));
    assert_eq!(get_max_brightness(b"255\n"), Ok(255));
}

#[test]
fn brightness_parse_accepts_sign_and_leading_zeros() {
    assert_eq!(get_brightness(b"+5"), Ok(5));
    assert_eq!(get_brightness(b"0007"), Ok(7));
    assert_eq!(get_brightness(b"000000000000255"), Ok(255));
}

#[test]
fn brightness_parse_rejects_bad_content() {
    assert_eq!(get_brightness(b""), Err(M4ArchError::InvalidValue));
    assert_eq!(get_brightness(b"   "), Err(M4ArchError::InvalidValue));
    assert_eq!(get_brightness(b"abc"), Err(M4ArchError::InvalidValue));
    assert_eq!(get_brightness(b"12a"), Err(M4ArchError::InvalidValue));
    assert_eq!(get_brightness(b"256"), Err(M4ArchError::InvalidValue));
    assert_eq!(get_brightness(b"300"), Err(M4ArchError::InvalidValue));
    assert_eq!(get_brightness(b"-1"), Err(M4ArchError::InvalidValue));
    assert_eq!(get_brightness(b"+"), Err(M4ArchError::InvalidValue));
    assert_eq!(get_brightness(b"1 2"), Err(M4ArchError::InvalidValue));
}

#[test]
fn brightness_round_trip_against_faithful_store() {
    // A store that echoes written content: write, then read the same bytes.
    let written = set_brightness(128);
    assert_eq!(get_brightness(&written), Ok(128));
    for level in [0u8, 1, 9, 10, 99, 100, 200, 255] {
        let content = set_brightness(level);
        assert_eq!(get_brightness(&content), Ok(level));
    }
}

#[test]
fn rgb_parse_takes_first_three_tokens() {
    assert_eq!(get_rgb_color(b"10 20 30"), Ok((10, 20, 30)));
    assert_eq!(get_rgb(b"10 20 30"), Ok(Rgb { r: 10, g: 20, b: 30 }));
    // Extra tokens beyond three are ignored.
    assert_eq!(get_rgb_color(b"1 2 3 4"), Ok((1, 2, 3)));
    // Any run of whitespace separates.
    assert_eq!(get_rgb_color(b" 10\t20  30 \n"), Ok((10, 20, 30)));
    assert_eq!(get_rgb_color(b"0 0 0"), Ok((0, 0, 0)));
    assert_eq!(get_rgb_color(b"255 255 255"), Ok((255, 255, 255)));
}

#[test]
fn rgb_parse_rejects_bad_content() {
    assert_eq!(get_rgb_color(b"10 20"), Err(M4ArchError::InvalidValue));
    assert_eq!(get_rgb_color(b"abc 1 2"), Err(M4ArchError::InvalidValue));
    assert_eq!(get_rgb_color(b""), Err(M4ArchError::InvalidValue));
    assert_eq!(get_rgb_color(b"1 2 999"), Err(M4ArchError::InvalidValue));
}

#[test]
fn rgb_write_format_is_space_separated_decimal() {
    assert_eq!(set_rgb_color(255, 0, 0).as_slice(), b"255 0 0");
    assert_eq!(set_rgb(Rgb { r: 1, g: 22, b: 103 }).as_slice(), b"1 22 103");
}

#[test]
fn rgb_round_trip_against_faithful_store() {
    let written = set_rgb(Rgb { r: 10, g: 20, b: 30 });
    assert_eq!(get_rgb(&written), Ok(Rgb { r: 10, g: 20, b: 30 }));
    for (r, g, b) in [(0, 0, 0), (255, 255, 255), (7, 42, 250)] {
        let content = set_rgb_color(r, g, b);
        assert_eq!(get_rgb_color(&content), Ok((r, g, b)));
    }
}

#[test]
fn discovery_prefers_vendor_driver_and_falls_back() {
    assert_eq!(
        get_keyboard(true, true),
        Some(KeyboardController::Tuxedo(TuxedoKeyboard))
    );
    assert_eq!(
        get_keyboard(true, false),
        Some(KeyboardController::Tuxedo(TuxedoKeyboard))
    );
    assert_eq!(
        get_keyboard(false, true),
        Some(KeyboardController::Sysfs(SysfsKeyboard))
    );
    assert_eq!(get_keyboard(false, false), None);
}

#[test]
fn discovery_failure_is_a_not_found_condition() {
    assert_eq!(
        get_controller(false, false),
        Err(M4ArchError::Io(IoErrorKind::NotFound))
    );
    assert_eq!(
        get_controller(false, true),
        Ok(KeyboardController::Sysfs(SysfsKeyboard))
    );
}

#[test]
fn backends_name_the_documented_attribute_paths() {
    assert_eq!(
        TuxedoKeyboard.brightness_path(),
        "/sys/devices/platform/tuxedo_keyboard/leds/rgb:kbd_backlight/brightness"
    );
    assert_eq!(
        TuxedoKeyboard.max_brightness_path(),
        "/sys/devices/platform/tuxedo_keyboard/leds/rgb:kbd_backlight/max_brightness"
    );
    assert_eq!(
        TuxedoKeyboard.rgb_path(),
        "/sys/devices/platform/tuxedo_keyboard/leds/rgb:kbd_backlight/multi_intensity"
    );
    assert_eq!(
        SysfsKeyboard.brightness_path(),
        "/sys/class/leds/rgb:kbd_backlight/brightness"
    );
    assert_eq!(
        SysfsKeyboard.max_brightness_path(),
        "/sys/class/leds/rgb:kbd_backlight/max_brightness"
    );
    assert_eq!(
        SysfsKeyboard.rgb_path(),
        "/sys/class/leds/rgb:kbd_backlight/multi_intensity"
    );
    let controller = KeyboardController::Sysfs(SysfsKeyboard);
    assert_eq!(
        controller.brightness_path(),
        "/sys/class/leds/rgb:kbd_backlight/brightness"
    );
    let controller = KeyboardController::Tuxedo(TuxedoKeyboard);
    assert_eq!(
        controller.rgb_path(),
        "/sys/devices/platform/tuxedo_keyboard/leds/rgb:kbd_backlight/multi_intensity"
    );
}

#[test]
fn end_to_end_against_simulated_attribute_files() {
    // The simulated sysfs: each attribute file faithfully keeps the last
    // written bytes. set_brightness(128) then get_brightness() returns 128.
    let brightness_file: Vec<u8> = set_brightness(128);
    assert_eq!(get_brightness(&brightness_file), Ok(128));

    // brightness_info on current=64, max=255.
    let current = get_brightness(b"64\n").unwrap();
    let max = get_max_brightness(b"255\n").unwrap();
    let info = brightness_info(current, max);
    assert_eq!(info.current, 64);
    assert_eq!(info.max, 255);
    assert_eq!(info.percent, 25);
    assert!(info.is_on);
}
