use vstd::prelude::*;
use vstd::string::StrSliceExecFns;
use crate::text::{
    ascii_lower, decimal, hex_byte, spec_is_whitespace, trim_end, trim_start, all_whitespace, law_trim_drops_outer_whitespace, law_trim_commutes_with_ascii_lower, hex_value, is_upper_hex_digit, law_hex_byte_reads_back, push_char, push_decimal, push_hex_byte, push_str,
    str_equals, str_starts_with, trim, trimmed_lower_equals,
};

verus! {

/// How a picked color is written out.
#[derive(Clone, Copy, Debug, PartialEq, Eq, Structural)]
pub enum Format {
    /// `#RRGGBB`
    Hex,
    /// `rgb(r, g, b)`
    Rgb,
    /// `hsl(h, s%, l%)`
    Hsl,
    /// The three forms above, one per line.
    All,
}

/// The format that a `--format` value selects: `rgb`, `hsl` or `all`,
/// ignoring surrounding whitespace and ASCII case; anything else selects
/// hex.
pub open spec fn format_of_value(value: Seq<char>) -> Format {
    let lowered = trim(value).map_values(|c: char| ascii_lower(c));
    if lowered == "rgb"@ {
        Format::Rgb
    } else if lowered == "hsl"@ {
        Format::Hsl
    } else if lowered == "all"@ {
        Format::All
    } else {
        Format::Hex
    }
}

/// Whether `arg` has the form `--format=VALUE`.
pub open spec fn is_inline_format_flag(arg: Seq<char>) -> bool {
    "--format="@.len() <= arg.len() && arg.subrange(0, "--format="@.len() as int) == "--format="@
}

/// The format that the command-line arguments (without the program name)
/// select: the first `--format VALUE`, `-f VALUE` or `--format=VALUE` wins;
/// a flag without a following value selects hex, and so do arguments
/// without any flag.
pub open spec fn spec_parse_format(args: Seq<Seq<char>>) -> Format
    decreases args.len(),
{
    if args.len() == 0 {
        Format::Hex
    } else if args[0] == "--format"@ || args[0] == "-f"@ {
        format_of_value(
            if args.len() > 1 {
                args[1]
            } else {
                Seq::empty()
            },
        )
    } else if is_inline_format_flag(args[0]) {
        format_of_value(args[0].skip("--format="@.len() as int))
    } else {
        spec_parse_format(args.drop_first())
    }
}

/// The characters of each argument.
pub open spec fn arg_chars(args: Seq<String>) -> Seq<Seq<char>> {
    args.map_values(|a: String| a@)
}

/// The format that `text` from position `from` on selects.
fn format_of_text(text: &str, from: usize) -> (format: Format)
    requires
        from <= text@.len(),
    ensures
        format == format_of_value(text@.skip(from as int)),
{
    if trimmed_lower_equals(text, from, "rgb") {
        Format::Rgb
    } else if trimmed_lower_equals(text, from, "hsl") {
        Format::Hsl
    } else if trimmed_lower_equals(text, from, "all") {
        Format::All
    } else {
        Format::Hex
    }
}

/// Reads the output format from the command-line arguments that follow the
/// program name.
pub fn parse_format(args: &Vec<String>) -> (format: Format)
    ensures
        format == spec_parse_format(arg_chars(args@)),
{
    let ghost all = arg_chars(args@);
    let n = args.len();
    let mut i: usize = 0;
    assert(all.skip(0) =~= all);
    while i < n
        invariant
            n == args@.len(),
            all == arg_chars(args@),
            i <= n,
            spec_parse_format(all) == spec_parse_format(all.skip(i as int)),
        decreases n - i,
    {
        let arg = args[i].as_str();
        let ghost rest = all.skip(i as int);
        assert(rest[0] == arg@);
        if str_equals(arg, "--format") || str_equals(arg, "-f") {
            if i + 1 < n {
                assert(rest[1] == args@[i + 1]@);
                let value = args[i + 1].as_str();
                let format = format_of_text(value, 0);
                assert(value@.skip(0) =~= value@);
                return format;
            } else {
                let format = format_of_text("", 0);
                proof {
                    reveal_strlit("");
                    assert(""@.skip(0) =~= Seq::<char>::empty());
                }
                return format;
            }
        }
        if str_starts_with(arg, "--format=") {
            let p = "--format=".unicode_len();
            return format_of_text(arg, p);
        }
        assert(rest.drop_first() =~= all.skip(i + 1));
        i += 1;
    }
    assert(all.skip(n as int) =~= Seq::<Seq<char>>::empty());
    Format::Hex
}

/// What the picking loop does after one look at the keyboard and mouse.
#[derive(Clone, Copy, Debug, PartialEq, Eq, Structural)]
pub enum PickAction {
    /// Escape is held: stop without a color.
    Cancel,
    /// The left button has just gone down: sample the pixel under the cursor.
    Sample,
    /// Nothing happened: look again a little later.
    Wait,
}

/// The picking decision: Escape cancels; otherwise a left button that is
/// down now but was not down at the previous look samples the color.
pub open spec fn spec_pick_step(was_left_down: bool, escape_down: bool, left_down: bool) -> PickAction {
    if escape_down {
        PickAction::Cancel
    } else if left_down && !was_left_down {
        PickAction::Sample
    } else {
        PickAction::Wait
    }
}

/// One step of the picking loop. `was_left_down` is whether the left button
/// was down at the previous look (at the first look, whether it was down
/// when picking began); the loop carries `left_down` over as the next
/// `was_left_down`.
pub fn pick_step(was_left_down: bool, escape_down: bool, left_down: bool) -> (action: PickAction)
    ensures
        action == spec_pick_step(was_left_down, escape_down, left_down),
{
    if escape_down {
        PickAction::Cancel
    } else if left_down && !was_left_down {
        PickAction::Sample
    } else {
        PickAction::Wait
    }
}

/// The value `GetPixel` returns when it fails (`CLR_INVALID`).
pub const CLR_INVALID: u32 = 0xFFFF_FFFF;

/// The red, green and blue bytes of a `COLORREF` (`0x00BBGGRR`), or nothing
/// for `CLR_INVALID`.
pub open spec fn spec_decode_pixel(raw: u32) -> Option<(u8, u8, u8)> {
    if raw == CLR_INVALID {
        None
    } else {
        Some(((raw % 0x100) as u8, ((raw / 0x100) % 0x100) as u8, ((raw / 0x10000) % 0x100) as u8))
    }
}

/// Decodes the value that `GetPixel` returned into red, green and blue;
/// `None` when the read failed.
pub fn decode_pixel(raw: u32) -> (rgb: Option<(u8, u8, u8)>)
    ensures
        rgb == spec_decode_pixel(raw),
{
    if raw == CLR_INVALID {
        return None;
    }
    let r = raw & 0xFF;
    let g = (raw >> 8u32) & 0xFF;
    let b = (raw >> 16u32) & 0xFF;
    assert(r == raw % 0x100 && g == (raw / 0x100) % 0x100 && b == (raw / 0x10000) % 0x100)
        by (bit_vector)
        requires
            r == raw & 0xFF,
            g == (raw >> 8u32) & 0xFF,
            b == (raw >> 16u32) & 0xFF,
    ;
    Some((r as u8, g as u8, b as u8))
}

/// Hue, saturation and lightness of a color, already rounded to whole
/// degrees and whole percent.
#[derive(Clone, Copy, Debug, PartialEq, Eq, Structural)]
pub struct Hsl {
    pub hue: u16,
    pub saturation: u16,
    pub lightness: u16,
}

/// `#RRGGBB` with uppercase hexadecimal digits.
pub open spec fn hex_text(rgb: (u8, u8, u8)) -> Seq<char> {
    seq!['#'] + hex_byte(rgb.0) + hex_byte(rgb.1) + hex_byte(rgb.2)
}

/// `rgb(r, g, b)` with decimal components.
pub open spec fn rgb_text(rgb: (u8, u8, u8)) -> Seq<char> {
    "rgb("@ + decimal(rgb.0 as nat) + ", "@ + decimal(rgb.1 as nat) + ", "@ + decimal(
        rgb.2 as nat,
    ) + ")"@
}

/// `hsl(h, s%, l%)` with decimal components.
pub open spec fn hsl_text(hsl: Hsl) -> Seq<char> {
    "hsl("@ + decimal(hsl.hue as nat) + ", "@ + decimal(hsl.saturation as nat) + "%, "@ + decimal(
        hsl.lightness as nat,
    ) + "%)"@
}

/// The text of a picked color in the given format.
pub open spec fn spec_format_color(rgb: (u8, u8, u8), format: Format, hsl: Hsl) -> Seq<char> {
    match format {
        Format::Hex => hex_text(rgb),
        Format::Rgb => rgb_text(rgb),
        Format::Hsl => hsl_text(hsl),
        Format::All => hex_text(rgb) + "\n"@ + rgb_text(rgb) + "\n"@ + hsl_text(hsl),
    }
}

fn push_hex_text(text: &mut String, rgb: (u8, u8, u8))
    ensures
        final(text)@ == old(text)@ + hex_text(rgb),
{
    push_char(text, '#');
    push_hex_byte(text, rgb.0);
    push_hex_byte(text, rgb.1);
    push_hex_byte(text, rgb.2);
    assert(text@ =~= old(text)@ + hex_text(rgb));
}

fn push_rgb_text(text: &mut String, rgb: (u8, u8, u8))
    ensures
        final(text)@ == old(text)@ + rgb_text(rgb),
{
    push_str(text, "rgb(");
    push_decimal(text, rgb.0 as u32);
    push_str(text, ", ");
    push_decimal(text, rgb.1 as u32);
    push_str(text, ", ");
    push_decimal(text, rgb.2 as u32);
    push_str(text, ")");
    assert(text@ =~= old(text)@ + rgb_text(rgb));
}

fn push_hsl_text(text: &mut String, hsl: Hsl)
    ensures
        final(text)@ == old(text)@ + hsl_text(hsl),
{
    push_str(text, "hsl(");
    push_decimal(text, hsl.hue as u32);
    push_str(text, ", ");
    push_decimal(text, hsl.saturation as u32);
    push_str(text, "%, ");
    push_decimal(text, hsl.lightness as u32);
    push_str(text, "%)");
    assert(text@ =~= old(text)@ + hsl_text(hsl));
}

/// Writes a picked color in the given format. `hsl` is the color's hue,
/// saturation and lightness, rounded; it is used by the `Hsl` and `All`
/// formats only.
pub fn format_color(rgb: (u8, u8, u8), format: Format, hsl: Hsl) -> (text: String)
    ensures
        text@ == spec_format_color(rgb, format, hsl),
{
    let mut text = String::new();
    match format {
        Format::Hex => push_hex_text(&mut text, rgb),
        Format::Rgb => push_rgb_text(&mut text, rgb),
        Format::Hsl => push_hsl_text(&mut text, hsl),
        Format::All => {
            push_hex_text(&mut text, rgb);
            push_str(&mut text, "\n");
            push_rgb_text(&mut text, rgb);
            push_str(&mut text, "\n");
            push_hsl_text(&mut text, hsl);
        },
    }
    assert(text@ =~= spec_format_color(rgb, format, hsl));
    text
}

/// Law: the `All` format is the hex, rgb and hsl texts, one per line.
pub proof fn law_all_is_each_format_per_line(rgb: (u8, u8, u8), hsl: Hsl)
    ensures
        spec_format_color(rgb, Format::All, hsl) == spec_format_color(rgb, Format::Hex, hsl)
            + "\n"@ + spec_format_color(rgb, Format::Rgb, hsl) + "\n"@ + spec_format_color(
            rgb,
            Format::Hsl,
            hsl,
        ),
{
}

/// Law: the hex text is `#` and six uppercase hex digits that read back as
/// the red, green and blue bytes, in that order.
pub proof fn law_hex_text_reads_back(rgb: (u8, u8, u8), hsl: Hsl)
    ensures
        ({
            let t = spec_format_color(rgb, Format::Hex, hsl);
            &&& t.len() == 7
            &&& t[0] == '#'
            &&& forall|i: int| 1 <= i < 7 ==> is_upper_hex_digit(#[trigger] t[i])
            &&& 16 * hex_value(t[1]) + hex_value(t[2]) == rgb.0
            &&& 16 * hex_value(t[3]) + hex_value(t[4]) == rgb.1
            &&& 16 * hex_value(t[5]) + hex_value(t[6]) == rgb.2
        }),
{
    law_hex_byte_reads_back(rgb.0);
    law_hex_byte_reads_back(rgb.1);
    law_hex_byte_reads_back(rgb.2);
    let t = hex_text(rgb);
    assert(t[1] == hex_byte(rgb.0)[0] && t[2] == hex_byte(rgb.0)[1]);
    assert(t[3] == hex_byte(rgb.1)[0] && t[4] == hex_byte(rgb.1)[1]);
    assert(t[5] == hex_byte(rgb.2)[0] && t[6] == hex_byte(rgb.2)[1]);
}

/// The `COLORREF` of a color (Win32 `RGB` macro: `0x00BBGGRR`).
pub open spec fn colorref(rgb: (u8, u8, u8)) -> u32 {
    (rgb.0 as int + 0x100 * rgb.1 as int + 0x10000 * rgb.2 as int) as u32
}

/// Law: decoding the `COLORREF` of a color gives the color back.
pub proof fn law_decode_pixel_of_colorref(rgb: (u8, u8, u8))
    ensures
        spec_decode_pixel(colorref(rgb)) == Some(rgb),
{
    let raw = colorref(rgb);
    assert(raw as int == rgb.0 as int + 0x100 * rgb.1 as int + 0x10000 * rgb.2 as int);
    assert(raw % 0x100 == rgb.0 && (raw / 0x100) % 0x100 == rgb.1 && (raw / 0x10000) % 0x100
        == rgb.2) by (nonlinear_arith)
        requires
            raw as int == rgb.0 as int + 0x100 * rgb.1 as int + 0x10000 * rgb.2 as int,
    ;
}

/// Whether `arg` is one of the format flags.
pub open spec fn is_format_flag(arg: Seq<char>) -> bool {
    arg == "--format"@ || arg == "-f"@ || is_inline_format_flag(arg)
}

/// Law: arguments before the first format flag do not change the format;
/// with no flag at all the format is hex.
pub proof fn law_parse_format_skips_other_args(before: Seq<Seq<char>>, after: Seq<Seq<char>>)
    requires
        forall|i: int| 0 <= i < before.len() ==> !is_format_flag(#[trigger] before[i]),
    ensures
        spec_parse_format(before + after) == spec_parse_format(after),
        spec_parse_format(before) == Format::Hex,
    decreases before.len(),
{
    if before.len() > 0 {
        let rest = before.drop_first();
        assert(!is_format_flag(before[0]));
        assert forall|i: int| 0 <= i < rest.len() implies !is_format_flag(#[trigger] rest[i]) by {
            assert(rest[i] == before[i + 1]);
        }
        law_parse_format_skips_other_args(rest, after);
        assert((before + after).drop_first() =~= rest + after);
        assert((before + after)[0] == before[0]);
    }
}

/// Law: whenever Escape is down the step cancels, whatever the left button
/// does; otherwise a sample is taken exactly when the left button is down
/// now and was not at the previous look, and in every other case the loop
/// waits.
pub proof fn law_pick_step_decisions(was_left_down: bool, escape_down: bool, left_down: bool)
    ensures
        escape_down ==> spec_pick_step(was_left_down, escape_down, left_down) == PickAction::Cancel,
        (spec_pick_step(was_left_down, escape_down, left_down) == PickAction::Sample) <==> (
        !escape_down && left_down && !was_left_down),
        (spec_pick_step(was_left_down, escape_down, left_down) == PickAction::Wait) <==> (
        !escape_down && !(left_down && !was_left_down)),
{
}

/// Law: the rgb text is `rgb(`, then red, green and blue in decimal in that
/// order separated by `, `, then `)`; the hsl text is `hsl(`, the hue, the
/// saturation followed by `%`, the lightness followed by `%`, then `)`; and
/// the `All` text is hex, rgb and hsl on three lines.
pub proof fn law_rgb_and_hsl_texts(rgb: (u8, u8, u8), hsl: Hsl)
    ensures
        spec_format_color(rgb, Format::Rgb, hsl) == "rgb("@ + decimal(rgb.0 as nat) + ", "@
            + decimal(rgb.1 as nat) + ", "@ + decimal(rgb.2 as nat) + ")"@,
        spec_format_color(rgb, Format::Hsl, hsl) == "hsl("@ + decimal(hsl.hue as nat) + ", "@
            + decimal(hsl.saturation as nat) + "%, "@ + decimal(hsl.lightness as nat) + "%)"@,
        spec_format_color(rgb, Format::All, hsl) == seq!['#'] + hex_byte(rgb.0) + hex_byte(rgb.1)
            + hex_byte(rgb.2) + "\n"@ + "rgb("@ + decimal(rgb.0 as nat) + ", "@ + decimal(
            rgb.1 as nat,
        ) + ", "@ + decimal(rgb.2 as nat) + ")"@ + "\n"@ + "hsl("@ + decimal(hsl.hue as nat)
            + ", "@ + decimal(hsl.saturation as nat) + "%, "@ + decimal(hsl.lightness as nat)
            + "%)"@,
{
}

/// Law: every value other than `CLR_INVALID` decodes to the color whose
/// `COLORREF` is the value's low 24 bits (the unused high byte is ignored),
/// and `CLR_INVALID` decodes to nothing.
pub proof fn law_decode_pixel_packs_back(raw: u32)
    ensures
        raw == 0xFFFF_FFFFu32 ==> spec_decode_pixel(raw) is None,
        raw != 0xFFFF_FFFFu32 ==> (spec_decode_pixel(raw) matches Some(rgb) && colorref(rgb)
            == raw % 0x100_0000),
{
    if raw != 0xFFFF_FFFFu32 {
        let rgb = spec_decode_pixel(raw)->0;
        let low = raw % 0x100_0000;
        assert(rgb.0 as int + 0x100 * rgb.1 as int + 0x10000 * rgb.2 as int == low) by (
        nonlinear_arith)
            requires
                rgb.0 == raw % 0x100,
                rgb.1 == (raw / 0x100) % 0x100,
                rgb.2 == (raw / 0x10000) % 0x100,
                low == raw % 0x100_0000,
        ;
    }
}

proof fn lemma_plain_word_trims_to_itself(word: Seq<char>)
    requires
        forall|i: int| 0 <= i < word.len() ==> !spec_is_whitespace(#[trigger] word[i]),
    ensures
        trim(word) == word,
{
    if word.len() > 0 {
        assert(!spec_is_whitespace(word[0]));
        assert(!spec_is_whitespace(word.last()));
    }
    assert(trim_start(word) == word);
}

proof fn lemma_format_names()
    ensures
        format_of_value("rgb"@) == Format::Rgb,
        format_of_value("hsl"@) == Format::Hsl,
        format_of_value("all"@) == Format::All,
{
    reveal_strlit("rgb");
    reveal_strlit("hsl");
    reveal_strlit("all");
    lemma_plain_word_trims_to_itself("rgb"@);
    lemma_plain_word_trims_to_itself("hsl"@);
    lemma_plain_word_trims_to_itself("all"@);
    assert("rgb"@.map_values(|c: char| ascii_lower(c)) =~= "rgb"@);
    assert("hsl"@.map_values(|c: char| ascii_lower(c)) =~= "hsl"@);
    assert("all"@.map_values(|c: char| ascii_lower(c)) =~= "all"@);
    assert("hsl"@ != "rgb"@) by {
        assert("hsl"@[0] != "rgb"@[0]);
    }
    assert("all"@ != "rgb"@) by {
        assert("all"@[0] != "rgb"@[0]);
    }
    assert("all"@ != "hsl"@) by {
        assert("all"@[0] != "hsl"@[0]);
    }
}

/// Law: `--format=VALUE`, `--format VALUE` and `-f VALUE` select the same
/// format for every value and whatever follows; `rgb`, `hsl` and `all`
/// select their formats, and a flag with no value selects hex.
pub proof fn law_format_flags_agree(value: Seq<char>, rest: Seq<Seq<char>>)
    ensures
        spec_parse_format(seq!["--format="@ + value] + rest) == spec_parse_format(
            seq!["--format"@, value] + rest,
        ),
        spec_parse_format(seq!["--format"@, value] + rest) == spec_parse_format(
            seq!["-f"@, value] + rest,
        ),
        spec_parse_format(seq!["--format"@, value] + rest) == format_of_value(value),
        spec_parse_format(seq!["--format"@]) == Format::Hex,
        spec_parse_format(seq!["-f"@]) == Format::Hex,
        format_of_value("rgb"@) == Format::Rgb,
        format_of_value("hsl"@) == Format::Hsl,
        format_of_value("all"@) == Format::All,
{
    reveal_strlit("--format=");
    reveal_strlit("--format");
    reveal_strlit("-f");
    reveal_strlit("rgb");
    reveal_strlit("hsl");
    reveal_strlit("all");
    lemma_format_names();
    let inline = "--format="@ + value;
    let a = seq![inline] + rest;
    let b = seq!["--format"@, value] + rest;
    let c = seq!["-f"@, value] + rest;
    assert(a[0] == inline);
    assert(b[0] == "--format"@ && b[1] == value && b.len() > 1);
    assert(c[0] == "-f"@ && c[1] == value && c.len() > 1);
    assert(inline != "--format"@) by {
        assert(inline.len() != "--format"@.len());
    }
    assert(inline != "-f"@) by {
        assert(inline.len() != "-f"@.len());
    }
    assert(inline.subrange(0, 9) =~= "--format="@);
    assert(inline.skip(9) =~= value);
    assert(is_inline_format_flag(inline));
    let empty = Seq::<char>::empty();
    assert(trim_start(empty) == empty);
    assert(trim_end(empty) == empty);
    assert(empty.map_values(|ch: char| ascii_lower(ch)) =~= empty);
    assert(empty != "rgb"@ && empty != "hsl"@ && empty != "all"@);
    assert(seq!["--format"@][0] == "--format"@);
    assert(seq!["-f"@][0] == "-f"@);
}

/// Law: the format a value selects ignores whitespace around it and the
/// case of its ASCII letters: values that agree once ASCII letters are
/// lowered select the same format, and so do a value and the same value
/// with whitespace added before and after.
pub proof fn law_format_value_ignores_case_and_padding(
    value: Seq<char>,
    other: Seq<char>,
    before: Seq<char>,
    after: Seq<char>,
)
    requires
        all_whitespace(before),
        all_whitespace(after),
    ensures
        value.map_values(|c: char| ascii_lower(c)) == other.map_values(|c: char| ascii_lower(c))
            ==> format_of_value(value) == format_of_value(other),
        format_of_value(before + value + after) == format_of_value(value),
{
    law_trim_commutes_with_ascii_lower(value);
    law_trim_commutes_with_ascii_lower(other);
    law_trim_drops_outer_whitespace(before, value, after);
}

/// Law: a value selects a format other than hex only when, trimmed and
/// with ASCII letters lowered, it reads `rgb`, `hsl` or `all`, and then it
/// selects the format of that name.
pub proof fn law_format_value_names(value: Seq<char>)
    ensures
        ({
            let name = trim(value).map_values(|c: char| ascii_lower(c));
            &&& name == seq!['r', 'g', 'b'] ==> format_of_value(value) == Format::Rgb
            &&& name == seq!['h', 's', 'l'] ==> format_of_value(value) == Format::Hsl
            &&& name == seq!['a', 'l', 'l'] ==> format_of_value(value) == Format::All
            &&& (name != seq!['r', 'g', 'b'] && name != seq!['h', 's', 'l'] && name != seq![
                'a',
                'l',
                'l',
            ]) ==> format_of_value(value) == Format::Hex
        }),
{
    reveal_strlit("rgb");
    reveal_strlit("hsl");
    reveal_strlit("all");
    assert("rgb"@ =~= seq!['r', 'g', 'b']);
    assert("hsl"@ =~= seq!['h', 's', 'l']);
    assert("all"@ =~= seq!['a', 'l', 'l']);
}

} // verus!
