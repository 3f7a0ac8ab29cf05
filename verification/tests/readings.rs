use statusline::readings::{backlight, battery, id_digits, sound};

fn mixer_output(volume: &str, flag: &str) -> Vec<u8> {
    format!(
        "Simple mixer control 'Master',0\n  Capabilities: pvolume pswitch\n  Playback channels: Mono\n  Limits: Playback 0 - 65536\n  Mono: Playback 48129 {volume} [-20.00dB] {flag}\n"
    )
    .into_bytes()
}

#[test]
fn battery_charging_uses_c_prefix() {
    let r = battery(0, b"Charging\n", b"100");
    assert_eq!(r, b"C: 100%".to_vec());
}

#[test]
fn battery_not_charging_uses_id() {
    let r = battery(0, b"Discharging\n", b"80");
    assert_eq!(r, b"0: 80%".to_vec());
    let r = battery(1, b"Full\n", b"97");
    assert_eq!(r, b"1: 97%".to_vec());
}

#[test]
fn battery_multi_digit_ids() {
    assert_eq!(battery(42, b"Unknown\n", b"5"), b"42: 5%".to_vec());
    assert_eq!(battery(255, b"", b"5"), b"255: 5%".to_vec());
    assert_eq!(battery(100, b"", b"5"), b"100: 5%".to_vec());
}

#[test]
fn battery_keeps_capacity_text_as_read() {
    // The raw capacity file contents, trailing newline included, are embedded
    // as they are; stripping happens only when the full line is composed.
    let r = battery(0, b"Charging\n", b"80\n");
    assert_eq!(r, b"C: 80\n%".to_vec());
}

#[test]
fn id_digits_formats_decimal() {
    assert_eq!(id_digits(0), b"0".to_vec());
    assert_eq!(id_digits(7), b"7".to_vec());
    assert_eq!(id_digits(10), b"10".to_vec());
    assert_eq!(id_digits(99), b"99".to_vec());
    assert_eq!(id_digits(100), b"100".to_vec());
    assert_eq!(id_digits(255), b"255".to_vec());
}

#[test]
fn sound_muted_regardless_of_volume() {
    let out = mixer_output("[37%]", "[off]");
    assert_eq!(sound(&out), Some(b"MUTED".to_vec()));
    let out = mixer_output("[80%]", "[off]");
    assert_eq!(sound(&out), Some(b"MUTED".to_vec()));
}

#[test]
fn sound_unmuted_strips_brackets() {
    let out = mixer_output("[37%]", "[on]");
    assert_eq!(sound(&out), Some(b"37%".to_vec()));
}

#[test]
fn sound_other_flag_is_not_muted() {
    let out = mixer_output("[55%]", "[onn]");
    assert_eq!(sound(&out), Some(b"55%".to_vec()));
}

#[test]
fn sound_too_few_lines_is_rejected() {
    assert_eq!(sound(b"one line only\n"), None);
    assert_eq!(sound(b"a\nb\nc\nd"), None);
}

#[test]
fn sound_short_fifth_line_is_rejected() {
    assert_eq!(sound(b"a\nb\nc\nd\nMono: Playback 48129\n"), None);
    // A volume token without a mute flag is still malformed.
    assert_eq!(sound(b"a\nb\nc\nd\nMono: Playback 48129 [37%]\n"), None);
}

#[test]
fn backlight_takes_integer_part() {
    assert_eq!(backlight(b"42.500000\n"), b"42%".to_vec());
}

#[test]
fn backlight_without_dot_keeps_everything() {
    assert_eq!(backlight(b"17"), b"17%".to_vec());
    assert_eq!(backlight(b""), b"%".to_vec());
}
