use vstd::prelude::*;
use vstd::string::StringExecFns;
use vstd::string::StrSliceExecFns;

verus! {

/// Appends one character to a string.
///
/// Trusted: this calls `String::push` of the standard library, whose
/// documentation says that it appends the given char to the end of the
/// string; the contract claims exactly that of the string's characters.
#[verifier::external_body]
pub(crate) fn push_char(text: &mut String, c: char)
    ensures
        final(text)@ == old(text)@.push(c),
{
    text.push(c);
}

/// Appends `more` to `text`.
pub(crate) fn push_str(text: &mut String, more: &str)
    ensures
        final(text)@ == old(text)@ + more@,
{
    text.append(more);
}

/// The decimal digit character for `d` (`0 <= d < 10`).
pub open spec fn decimal_digit(d: int) -> char {
    (48 + d) as char
}

/// The uppercase hexadecimal digit character for `d` (`0 <= d < 16`).
pub open spec fn hex_digit(d: int) -> char {
    if d < 10 {
        (48 + d) as char
    } else {
        (55 + d) as char
    }
}

/// The decimal representation of `n`, without sign or leading zeros, as
/// `{}` formats an unsigned integer.
pub open spec fn decimal(n: nat) -> Seq<char>
    decreases n,
{
    if n < 10 {
        seq![decimal_digit(n as int)]
    } else {
        decimal(n / 10).push(decimal_digit((n % 10) as int))
    }
}

/// Two uppercase hexadecimal digits of a byte, as `{:02X}` formats it.
pub open spec fn hex_byte(b: u8) -> Seq<char> {
    seq![hex_digit(b as int / 16), hex_digit(b as int % 16)]
}

fn decimal_digit_char(d: u32) -> (c: char)
    requires
        d < 10,
    ensures
        c == decimal_digit(d as int),
{
    let b = d as u8 + 48u8;
    b as char
}

fn hex_digit_char(d: u8) -> (c: char)
    requires
        d < 16,
    ensures
        c == hex_digit(d as int),
{
    if d < 10 {
        (d + 48u8) as char
    } else {
        (d + 55u8) as char
    }
}

/// Appends the decimal representation of `n` to `text`.
pub(crate) fn push_decimal(text: &mut String, n: u32)
    ensures
        final(text)@ == old(text)@ + decimal(n as nat),
    decreases n,
{
    if n >= 10 {
        push_decimal(text, n / 10);
    }
    push_char(text, decimal_digit_char(n % 10));
    assert(n < 10 ==> n % 10 == n);
}

/// Appends the two uppercase hexadecimal digits of `b` to `text`.
pub(crate) fn push_hex_byte(text: &mut String, b: u8)
    ensures
        final(text)@ == old(text)@ + hex_byte(b),
{
    push_char(text, hex_digit_char(b / 16));
    push_char(text, hex_digit_char(b % 16));
    assert(text@ =~= old(text)@ + hex_byte(b));
}

/// Whether `c` has the Unicode `White_Space` property, the test that
/// `char::is_whitespace` and `str::trim` use: the controls U+0009 to U+000D,
/// space, U+0085, no-break space, U+1680, the spaces U+2000 to U+200A, the
/// line and paragraph separators, U+202F, U+205F and the ideographic space.
pub open spec fn spec_is_whitespace(c: char) -> bool {
    let v = c as int;
    ||| 0x09 <= v <= 0x0D
    ||| v == 0x20
    ||| v == 0x85
    ||| v == 0xA0
    ||| v == 0x1680
    ||| 0x2000 <= v <= 0x200A
    ||| v == 0x2028
    ||| v == 0x2029
    ||| v == 0x202F
    ||| v == 0x205F
    ||| v == 0x3000
}

/// Whether `c` is whitespace.
pub fn is_whitespace(c: char) -> (ws: bool)
    ensures
        ws == spec_is_whitespace(c),
{
    let v = c as u32;
    (0x09 <= v && v <= 0x0D) || v == 0x20 || v == 0x85 || v == 0xA0 || v == 0x1680 || (0x2000
        <= v && v <= 0x200A) || v == 0x2028 || v == 0x2029 || v == 0x202F || v == 0x205F || v
        == 0x3000
}

/// `c` with an ASCII uppercase letter mapped to lowercase, any other
/// character unchanged (as `char::to_ascii_lowercase` maps it).
pub open spec fn ascii_lower(c: char) -> char {
    if 'A' <= c && c <= 'Z' {
        ((c as int) + 32) as char
    } else {
        c
    }
}

fn ascii_lower_char(c: char) -> (l: char)
    ensures
        l == ascii_lower(c),
{
    if 'A' <= c && c <= 'Z' {
        ((c as u8) + 32u8) as char
    } else {
        c
    }
}

/// Whether `a` and `b` are equal when ASCII letters are compared without
/// regard to case (`str::eq_ignore_ascii_case`).
pub open spec fn eq_ignore_ascii_case(a: Seq<char>, b: Seq<char>) -> bool {
    &&& a.len() == b.len()
    &&& forall|i: int| 0 <= i < a.len() ==> ascii_lower(#[trigger] a[i]) == ascii_lower(b[i])
}

/// Compares `text` with `other`, ignoring the case of ASCII letters.
pub(crate) fn str_eq_ignore_ascii_case(text: &str, other: &str) -> (eq: bool)
    ensures
        eq == eq_ignore_ascii_case(text@, other@),
{
    let n = text.unicode_len();
    if n != other.unicode_len() {
        return false;
    }
    let mut i: usize = 0;
    while i < n
        invariant
            n == text@.len(),
            n == other@.len(),
            i <= n,
            forall|j: int| 0 <= j < i ==> ascii_lower(#[trigger] text@[j]) == ascii_lower(other@[j]),
        decreases n - i,
    {
        if ascii_lower_char(text.get_char(i)) != ascii_lower_char(other.get_char(i)) {
            return false;
        }
        i += 1;
    }
    true
}

/// Whether the characters of `text` from `from` to `to` spell `lit`.
pub(crate) fn region_equals(text: &str, from: usize, to: usize, lit: &str) -> (eq: bool)
    requires
        from <= to <= text@.len(),
    ensures
        eq == (text@.subrange(from as int, to as int) == lit@),
{
    let n = lit.unicode_len();
    if to - from != n {
        proof {
            assert(text@.subrange(from as int, to as int).len() != lit@.len());
        }
        return false;
    }
    let mut i: usize = 0;
    while i < n
        invariant
            n == lit@.len(),
            from <= to <= text@.len(),
            to - from == n,
            i <= n,
            forall|j: int| 0 <= j < i ==> #[trigger] text@[from + j] == lit@[j],
        decreases n - i,
    {
        if text.get_char(from + i) != lit.get_char(i) {
            proof {
                assert(text@.subrange(from as int, to as int)[i as int] != lit@[i as int]);
            }
            return false;
        }
        i += 1;
    }
    assert forall|j: int| 0 <= j < n implies text@.subrange(from as int, to as int)[j] == lit@[j] by {
        assert(text@[from + j] == lit@[j]);
    }
    assert(text@.subrange(from as int, to as int) =~= lit@);
    true
}

/// Whether `text` is exactly `lit`.
pub(crate) fn str_equals(text: &str, lit: &str) -> (eq: bool)
    ensures
        eq == (text@ == lit@),
{
    let n = text.unicode_len();
    let eq = region_equals(text, 0, n, lit);
    assert(text@.subrange(0, n as int) =~= text@);
    eq
}

/// Whether `text` begins with `prefix`.
pub(crate) fn str_starts_with(text: &str, prefix: &str) -> (starts: bool)
    ensures
        starts == (prefix@.len() <= text@.len() && text@.subrange(0, prefix@.len() as int)
            == prefix@),
{
    let n = text.unicode_len();
    let p = prefix.unicode_len();
    if p > n {
        return false;
    }
    region_equals(text, 0, p, prefix)
}

/// `s` without its leading whitespace.
pub open spec fn trim_start(s: Seq<char>) -> Seq<char>
    decreases s.len(),
{
    if s.len() > 0 && spec_is_whitespace(s[0]) {
        trim_start(s.drop_first())
    } else {
        s
    }
}

/// `s` without its trailing whitespace.
pub open spec fn trim_end(s: Seq<char>) -> Seq<char>
    decreases s.len(),
{
    if s.len() > 0 && spec_is_whitespace(s.last()) {
        trim_end(s.drop_last())
    } else {
        s
    }
}

/// `s` without leading and trailing whitespace (`str::trim`).
pub open spec fn trim(s: Seq<char>) -> Seq<char> {
    trim_end(trim_start(s))
}

/// Whether `text` from position `from` on, trimmed of whitespace and with
/// ASCII letters lowered, spells `lit`.
pub(crate) fn trimmed_lower_equals(text: &str, from: usize, lit: &str) -> (eq: bool)
    requires
        from <= text@.len(),
    ensures
        eq == (trim(text@.skip(from as int)).map_values(|c: char| ascii_lower(c)) == lit@),
{
    let n = text.unicode_len();
    let mut start = from;
    while start < n && is_whitespace(text.get_char(start))
        invariant
            n == text@.len(),
            from <= start <= n,
            trim_start(text@.skip(from as int)) == trim_start(text@.skip(start as int)),
        decreases n - start,
    {
        assert(text@.skip(start as int).drop_first() =~= text@.skip(start + 1));
        start += 1;
    }
    let ghost head = text@.skip(start as int);
    assert(trim_start(head) == head) by {
        if head.len() > 0 {
            assert(head[0] == text@[start as int]);
        }
    }
    let mut end = n;
    while end > start && is_whitespace(text.get_char(end - 1))
        invariant
            n == text@.len(),
            start <= end <= n,
            head == text@.skip(start as int),
            trim_end(head) == trim_end(text@.subrange(start as int, end as int)),
        decreases end - start,
    {
        assert(text@.subrange(start as int, end as int).drop_last() =~= text@.subrange(
            start as int,
            end - 1,
        ));
        end -= 1;
    }
    let ghost body = text@.subrange(start as int, end as int);
    assert(trim_end(body) == body) by {
        if body.len() > 0 {
            assert(body.last() == text@[end - 1]);
        }
    }
    assert(start == n ==> head =~= text@.subrange(start as int, end as int));
    assert(trim(text@.skip(from as int)) == body);
    let m = lit.unicode_len();
    if end - start != m {
        proof {
            assert(body.map_values(|c: char| ascii_lower(c)).len() != lit@.len());
        }
        return false;
    }
    let mut i: usize = 0;
    while i < m
        invariant
            m == lit@.len(),
            n == text@.len(),
            start <= end <= n,
            end - start == m,
            body == text@.subrange(start as int, end as int),
            from <= n,
            trim(text@.skip(from as int)) == body,
            i <= m,
            forall|j: int| 0 <= j < i ==> ascii_lower(#[trigger] body[j]) == lit@[j],
        decreases m - i,
    {
        if ascii_lower_char(text.get_char(start + i)) != lit.get_char(i) {
            proof {
                assert(body[i as int] == text@[start + i]);
                assert(body.map_values(|c: char| ascii_lower(c))[i as int] != lit@[i as int]);
            }
            return false;
        }
        assert(body[i as int] == text@[start + i]);
        i += 1;
    }
    assert(body.map_values(|c: char| ascii_lower(c)) =~= lit@);
    true
}

/// The UTF-16 code units of one character: one unit for a character of the
/// Basic Multilingual Plane, a surrogate pair for any other.
pub open spec fn utf16_units(c: char) -> Seq<u16> {
    let v = c as int;
    if v < 0x10000 {
        seq![v as u16]
    } else {
        seq![(0xD800 + (v - 0x10000) / 0x400) as u16, (0xDC00 + (v - 0x10000) % 0x400) as u16]
    }
}

/// The UTF-16 encoding of `s` (`str::encode_utf16`).
pub open spec fn utf16(s: Seq<char>) -> Seq<u16>
    decreases s.len(),
{
    if s.len() == 0 {
        seq![]
    } else {
        utf16(s.drop_last()) + utf16_units(s.last())
    }
}

/// Returns `text` encoded as UTF-16 and terminated by a zero unit, the form
/// in which Win32 wide-string functions take text.
pub fn wide_nul(text: &str) -> (wide: Vec<u16>)
    ensures
        wide@ == utf16(text@).push(0u16),
{
    let n = text.unicode_len();
    let mut wide: Vec<u16> = Vec::new();
    let mut i: usize = 0;
    while i < n
        invariant
            n == text@.len(),
            i <= n,
            wide@ == utf16(text@.take(i as int)),
        decreases n - i,
    {
        let c = text.get_char(i);
        let v = c as u32;
        if v < 0x10000 {
            wide.push(v as u16);
        } else {
            let w = v - 0x10000;
            wide.push((0xD800 + w / 0x400) as u16);
            wide.push((0xDC00 + w % 0x400) as u16);
        }
        assert(text@.take(i + 1).drop_last() =~= text@.take(i as int));
        i += 1;
        assert(wide@ =~= utf16(text@.take(i as int)));
    }
    assert(text@.take(n as int) =~= text@);
    wide.push(0);
    wide
}

/// The value of a decimal digit character.
pub open spec fn digit_value(c: char) -> int {
    c as int - 48
}

/// Whether `c` is one of `0` to `9`.
pub open spec fn is_decimal_digit(c: char) -> bool {
    '0' <= c && c <= '9'
}

/// The number that a string of decimal digits denotes.
pub open spec fn decimal_value(s: Seq<char>) -> int
    decreases s.len(),
{
    if s.len() == 0 {
        0
    } else {
        10 * decimal_value(s.drop_last()) + digit_value(s.last())
    }
}

/// Law: the decimal text of a number consists of digits only, has no
/// leading zero (the number zero is the single digit `0`), and reads back
/// as the number; so different numbers give different texts.
pub proof fn law_decimal_reads_back(n: nat)
    ensures
        decimal_value(decimal(n)) == n,
        decimal(n).len() > 0,
        forall|i: int| 0 <= i < decimal(n).len() ==> is_decimal_digit(#[trigger] decimal(n)[i]),
        decimal(n)[0] == '0' ==> n == 0,
    decreases n,
{
    let last = decimal_digit((n % 10) as int);
    assert(digit_value(last) == n % 10);
    if n < 10 {
        assert(decimal(n).drop_last() =~= Seq::<char>::empty());
        assert(decimal_value(Seq::<char>::empty()) == 0);
    } else {
        law_decimal_reads_back(n / 10);
        let d = decimal(n);
        assert(d.last() == last);
        assert(10 * (n / 10) + n % 10 == n);
        assert(d.drop_last() =~= decimal(n / 10));
        assert forall|i: int| 0 <= i < d.len() implies is_decimal_digit(#[trigger] d[i]) by {
            if i < d.len() - 1 {
                assert(d[i] == decimal(n / 10)[i]);
            }
        }
        assert(d[0] == decimal(n / 10)[0]);
    }
}

/// The value of an uppercase hexadecimal digit character.
pub open spec fn hex_value(c: char) -> int {
    if c <= '9' {
        c as int - 48
    } else {
        c as int - 55
    }
}

/// Whether `c` is one of `0` to `9` or `A` to `F`.
pub open spec fn is_upper_hex_digit(c: char) -> bool {
    ('0' <= c && c <= '9') || ('A' <= c && c <= 'F')
}

/// Law: the two hexadecimal digits of a byte are uppercase hex digits and
/// read back as the byte.
pub proof fn law_hex_byte_reads_back(b: u8)
    ensures
        hex_byte(b).len() == 2,
        is_upper_hex_digit(hex_byte(b)[0]),
        is_upper_hex_digit(hex_byte(b)[1]),
        16 * hex_value(hex_byte(b)[0]) + hex_value(hex_byte(b)[1]) == b,
{
}

/// Whether every character of `s` is whitespace.
pub open spec fn all_whitespace(s: Seq<char>) -> bool {
    forall|i: int| 0 <= i < s.len() ==> spec_is_whitespace(#[trigger] s[i])
}

proof fn lemma_trim_start_skips_whitespace(w: Seq<char>, x: Seq<char>)
    requires
        all_whitespace(w),
    ensures
        trim_start(w + x) == trim_start(x),
    decreases w.len(),
{
    if w.len() > 0 {
        assert((w + x)[0] == w[0]);
        assert((w + x).drop_first() =~= w.drop_first() + x);
        assert forall|i: int| 0 <= i < w.drop_first().len() implies spec_is_whitespace(
            #[trigger] w.drop_first()[i],
        ) by {
            assert(w.drop_first()[i] == w[i + 1]);
        }
        lemma_trim_start_skips_whitespace(w.drop_first(), x);
    } else {
        assert(w + x =~= x);
    }
}

proof fn lemma_trim_end_skips_whitespace(x: Seq<char>, w: Seq<char>)
    requires
        all_whitespace(w),
    ensures
        trim_end(x + w) == trim_end(x),
    decreases w.len(),
{
    if w.len() > 0 {
        assert((x + w).last() == w.last());
        assert((x + w).drop_last() =~= x + w.drop_last());
        assert forall|i: int| 0 <= i < w.drop_last().len() implies spec_is_whitespace(
            #[trigger] w.drop_last()[i],
        ) by {
            assert(w.drop_last()[i] == w[i]);
        }
        lemma_trim_end_skips_whitespace(x, w.drop_last());
    } else {
        assert(x + w =~= x);
    }
}

proof fn lemma_trim_start_append(v: Seq<char>, w: Seq<char>)
    requires
        all_whitespace(w),
    ensures
        all_whitespace(v) ==> trim_start(v + w) == Seq::<char>::empty() && trim_start(v)
            == Seq::<char>::empty(),
        !all_whitespace(v) ==> trim_start(v + w) == trim_start(v) + w,
    decreases v.len(),
{
    if v.len() == 0 {
        assert(v + w =~= w);
        lemma_trim_start_skips_whitespace(w, Seq::<char>::empty());
        assert(w + Seq::<char>::empty() =~= w);
        assert(trim_start(Seq::<char>::empty()) == Seq::<char>::empty());
    } else {
        let rest = v.drop_first();
        assert((v + w)[0] == v[0]);
        assert((v + w).drop_first() =~= rest + w);
        lemma_trim_start_append(rest, w);
        if spec_is_whitespace(v[0]) {
            assert(all_whitespace(v) <==> all_whitespace(rest)) by {
                if all_whitespace(rest) {
                    assert forall|i: int| 0 <= i < v.len() implies spec_is_whitespace(
                        #[trigger] v[i],
                    ) by {
                        if i > 0 {
                            assert(v[i] == rest[i - 1]);
                        }
                    }
                }
                if all_whitespace(v) {
                    assert forall|i: int| 0 <= i < rest.len() implies spec_is_whitespace(
                        #[trigger] rest[i],
                    ) by {
                        assert(rest[i] == v[i + 1]);
                    }
                }
            }
        } else {
            assert(!all_whitespace(v));
        }
    }
}

/// Law: trimming ignores whitespace added before and after the text.
pub proof fn law_trim_drops_outer_whitespace(before: Seq<char>, text: Seq<char>, after: Seq<char>)
    requires
        all_whitespace(before),
        all_whitespace(after),
    ensures
        trim(before + text + after) == trim(text),
{
    assert(before + text + after =~= before + (text + after));
    lemma_trim_start_skips_whitespace(before, text + after);
    lemma_trim_start_append(text, after);
    let empty = Seq::<char>::empty();
    if all_whitespace(text) {
        assert(trim_end(empty) == empty);
    } else {
        lemma_trim_end_skips_whitespace(trim_start(text), after);
    }
}

proof fn lemma_whitespace_unaffected_by_lower(c: char)
    ensures
        spec_is_whitespace(ascii_lower(c)) == spec_is_whitespace(c),
{
}

proof fn lemma_trim_start_lower(s: Seq<char>)
    ensures
        trim_start(s.map_values(|c: char| ascii_lower(c))) == trim_start(s).map_values(
            |c: char| ascii_lower(c),
        ),
    decreases s.len(),
{
    let l = s.map_values(|c: char| ascii_lower(c));
    if s.len() > 0 {
        lemma_whitespace_unaffected_by_lower(s[0]);
        assert(l[0] == ascii_lower(s[0]));
        assert(l.drop_first() =~= s.drop_first().map_values(|c: char| ascii_lower(c)));
        lemma_trim_start_lower(s.drop_first());
    }
}

proof fn lemma_trim_end_lower(s: Seq<char>)
    ensures
        trim_end(s.map_values(|c: char| ascii_lower(c))) == trim_end(s).map_values(
            |c: char| ascii_lower(c),
        ),
    decreases s.len(),
{
    let l = s.map_values(|c: char| ascii_lower(c));
    if s.len() > 0 {
        lemma_whitespace_unaffected_by_lower(s.last());
        assert(l.last() == ascii_lower(s.last()));
        assert(l.drop_last() =~= s.drop_last().map_values(|c: char| ascii_lower(c)));
        lemma_trim_end_lower(s.drop_last());
    }
}

/// Law: lowering ASCII letters and trimming may be done in either order,
/// and lowering twice is lowering once.
pub proof fn law_trim_commutes_with_ascii_lower(s: Seq<char>)
    ensures
        trim(s.map_values(|c: char| ascii_lower(c))) == trim(s).map_values(
            |c: char| ascii_lower(c),
        ),
        trim(s).map_values(|c: char| ascii_lower(c)) == trim(
            s.map_values(|c: char| ascii_lower(c)),
        ).map_values(|c: char| ascii_lower(c)),
{
    lemma_trim_start_lower(s);
    lemma_trim_end_lower(trim_start(s));
    let t = trim(s).map_values(|c: char| ascii_lower(c));
    assert(t.map_values(|c: char| ascii_lower(c)) =~= t);
}

/// Law: text of the Basic Multilingual Plane (every character below
/// U+10000) encodes to one UTF-16 unit per character, each unit the
/// character's code; any character above takes two units, so the encoding
/// is never shorter than the text.
pub proof fn law_utf16_of_bmp_text(s: Seq<char>)
    ensures
        utf16(s).len() >= s.len(),
        (forall|i: int| 0 <= i < s.len() ==> (#[trigger] s[i] as int) < 0x10000) ==> {
            &&& utf16(s).len() == s.len()
            &&& forall|i: int| 0 <= i < s.len() ==> utf16(s)[i] == s[i] as u16
        },
    decreases s.len(),
{
    if s.len() > 0 {
        let init = s.drop_last();
        law_utf16_of_bmp_text(init);
        if forall|i: int| 0 <= i < s.len() ==> (#[trigger] s[i] as int) < 0x10000 {
            assert forall|i: int| 0 <= i < init.len() implies (#[trigger] init[i] as int) < 0x10000 by {
                assert(init[i] == s[i]);
            }
            assert((s.last() as int) < 0x10000) by {
                assert((s[s.len() - 1] as int) < 0x10000);
            }
            assert forall|i: int| 0 <= i < s.len() implies utf16(s)[i] == s[i] as u16 by {
                if i < s.len() - 1 {
                    assert(init[i] == s[i]);
                }
            }
        }
    }
}

/// Law: a character above the Basic Multilingual Plane encodes to a high
/// surrogate (`0xD800..0xDC00`) followed by a low surrogate
/// (`0xDC00..0xE000`) from which it is recovered as
/// `0x10000 + (high - 0xD800) * 0x400 + (low - 0xDC00)`.
pub proof fn law_utf16_surrogate_pair(c: char)
    requires
        c as int >= 0x10000,
    ensures
        ({
            let u = utf16(seq![c]);
            &&& u.len() == 2
            &&& 0xD800 <= u[0] < 0xDC00
            &&& 0xDC00 <= u[1] < 0xE000
            &&& 0x10000 + (u[0] - 0xD800) * 0x400 + (u[1] - 0xDC00) == c as int
        }),
{
    let empty = Seq::<char>::empty();
    assert(seq![c].drop_last() =~= empty);
    assert(utf16(empty) == Seq::<u16>::empty());
    assert(utf16(seq![c]) =~= utf16_units(c));
    let w = c as int - 0x10000;
    assert(w < 0x100000);
    assert(0 <= w / 0x400 < 0x400);
    assert(0x400 * (w / 0x400) + w % 0x400 == w);
}

} // verus!
