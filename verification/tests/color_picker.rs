use rpack_tools::color_picker::{
    decode_pixel, format_color, parse_format, pick_step, Format, Hsl, PickAction,
};

fn args(list: &[&str]) -> Vec<String> {
    list.iter().map(|s| s.to_string()).collect()
}

#[test]
fn parse_format_defaults_to_hex() {
    assert_eq!(parse_format(&args(&[])), Format::Hex);
    assert_eq!(parse_format(&args(&["picker", "--verbose"])), Format::Hex);
}

#[test]
fn parse_format_reads_separate_value() {
    assert_eq!(parse_format(&args(&["--format", "rgb"])), Format::Rgb);
    assert_eq!(parse_format(&args(&["-f", "hsl"])), Format::Hsl);
    assert_eq!(parse_format(&args(&["--format", "all"])), Format::All);
}

#[test]
fn parse_format_reads_inline_value() {
    assert_eq!(parse_format(&args(&["--format=rgb"])), Format::Rgb);
    assert_eq!(parse_format(&args(&["--format=ALL"])), Format::All);
    assert_eq!(parse_format(&args(&["--format="])), Format::Hex);
}

#[test]
fn parse_format_ignores_case_and_surrounding_whitespace() {
    assert_eq!(parse_format(&args(&["-f", "  HsL \t"])), Format::Hsl);
    assert_eq!(parse_format(&args(&["--format=\u{3000}Rgb\n"])), Format::Rgb);
    assert_eq!(parse_format(&args(&["-f", "r g b"])), Format::Hex);
}

#[test]
fn parse_format_unknown_or_missing_value_is_hex() {
    assert_eq!(parse_format(&args(&["--format", "purple"])), Format::Hex);
    assert_eq!(parse_format(&args(&["--format"])), Format::Hex);
    assert_eq!(parse_format(&args(&["-f"])), Format::Hex);
}

#[test]
fn parse_format_first_flag_wins() {
    assert_eq!(parse_format(&args(&["x", "--format=rgb", "-f", "hsl"])), Format::Rgb);
    assert_eq!(parse_format(&args(&["--format", "bogus", "--format", "rgb"])), Format::Hex);
    assert_eq!(parse_format(&args(&["--formats=rgb", "-f", "all"])), Format::All);
    assert_eq!(parse_format(&args(&["-F", "rgb"])), Format::Hex);
}

#[test]
fn pick_step_cancels_on_escape() {
    assert_eq!(pick_step(false, true, true), PickAction::Cancel);
    assert_eq!(pick_step(true, true, false), PickAction::Cancel);
}

#[test]
fn pick_step_samples_on_press_only() {
    assert_eq!(pick_step(false, false, true), PickAction::Sample);
    assert_eq!(pick_step(true, false, true), PickAction::Wait);
    assert_eq!(pick_step(true, false, false), PickAction::Wait);
    assert_eq!(pick_step(false, false, false), PickAction::Wait);
}

#[test]
fn pick_loop_needs_release_before_sampling() {
    // Button already held when picking starts, released, pressed again.
    let looks = [(false, true), (false, true), (false, false), (false, true)];
    let mut was_left_down = true;
    let mut actions = Vec::new();
    for (escape, left) in looks {
        actions.push(pick_step(was_left_down, escape, left));
        was_left_down = left;
    }
    assert_eq!(
        actions,
        vec![PickAction::Wait, PickAction::Wait, PickAction::Wait, PickAction::Sample]
    );
}

#[test]
fn decode_pixel_splits_colorref() {
    assert_eq!(decode_pixel(0x0033_2211), Some((0x11, 0x22, 0x33)));
    assert_eq!(decode_pixel(0x0000_00FF), Some((255, 0, 0)));
    assert_eq!(decode_pixel(0x0000_0000), Some((0, 0, 0)));
    assert_eq!(decode_pixel(0x00FF_FFFF), Some((255, 255, 255)));
}

#[test]
fn decode_pixel_rejects_invalid() {
    assert_eq!(decode_pixel(0xFFFF_FFFF), None);
}

#[test]
fn decode_pixel_of_colorref_gives_color_back() {
    for (r, g, b) in [(0u8, 0u8, 0u8), (1, 2, 3), (255, 128, 7), (255, 255, 255)] {
        let raw = r as u32 | (g as u32) << 8 | (b as u32) << 16;
        assert_eq!(decode_pixel(raw), Some((r, g, b)));
    }
}

fn hsl(hue: u16, saturation: u16, lightness: u16) -> Hsl {
    Hsl { hue, saturation, lightness }
}

#[test]
fn format_color_hex() {
    assert_eq!(format_color((255, 0, 128), Format::Hex, hsl(330, 100, 50)), "#FF0080");
    assert_eq!(format_color((0, 10, 171), Format::Hex, hsl(0, 0, 0)), "#000AAB");
}

#[test]
fn format_color_rgb() {
    assert_eq!(format_color((255, 0, 128), Format::Rgb, hsl(330, 100, 50)), "rgb(255, 0, 128)");
    assert_eq!(format_color((7, 42, 100), Format::Rgb, hsl(0, 0, 0)), "rgb(7, 42, 100)");
}

#[test]
fn format_color_hsl() {
    assert_eq!(
        format_color((255, 0, 128), Format::Hsl, hsl(330, 100, 50)),
        "hsl(330, 100%, 50%)"
    );
    assert_eq!(format_color((128, 128, 128), Format::Hsl, hsl(0, 0, 50)), "hsl(0, 0%, 50%)");
}

#[test]
fn format_color_all_joins_each_format() {
    let rgb = (18, 52, 86);
    let h = hsl(210, 65, 20);
    let all = format_color(rgb, Format::All, h);
    assert_eq!(all, "#123456\nrgb(18, 52, 86)\nhsl(210, 65%, 20%)");
    let joined = format!(
        "{}\n{}\n{}",
        format_color(rgb, Format::Hex, h),
        format_color(rgb, Format::Rgb, h),
        format_color(rgb, Format::Hsl, h)
    );
    assert_eq!(all, joined);
}

#[test]
fn format_color_hex_reads_back() {
    for rgb in [(0u8, 0u8, 0u8), (1, 2, 3), (171, 205, 239), (255, 255, 255)] {
        let text = format_color(rgb, Format::Hex, hsl(0, 0, 0));
        assert_eq!(text.len(), 7);
        assert!(text.starts_with('#'));
        let r = u8::from_str_radix(&text[1..3], 16).unwrap();
        let g = u8::from_str_radix(&text[3..5], 16).unwrap();
        let b = u8::from_str_radix(&text[5..7], 16).unwrap();
        assert_eq!((r, g, b), rgb);
        assert_eq!(text, text.to_uppercase());
    }
}

#[test]
fn format_color_decimal_reads_back() {
    for v in [0u8, 9, 10, 99, 100, 255] {
        let text = format_color((v, v, v), Format::Rgb, hsl(0, 0, 0));
        let inner = text.trim_start_matches("rgb(").trim_end_matches(')');
        for part in inner.split(", ") {
            assert_eq!(part.parse::<u8>().unwrap(), v);
            assert_eq!(part, v.to_string());
        }
    }
}
