//! Pure data types and parsers of the font-inspection tooling: glyph and
//! font report records, Unicode codepoint ranges with their hexadecimal
//! notation, and the predefined character-set presets.

use vstd::prelude::*;
use vstd::string::{StringSliceAdditionalSpecFns, StrSliceExecFns};
use crate::bytes::str_eq;

verus! {

/// Bounding box of a glyph, in font units.
#[derive(Debug, Clone)]
pub struct BBox {
    pub x_min: i16,
    pub y_min: i16,
    pub x_max: i16,
    pub y_max: i16,
}

/// Complete information about a single glyph.
#[derive(Debug, Clone)]
pub struct GlyphInfo {
    pub glyph_name: String,
    pub unicode: String,
    pub unicode_char: String,
    pub svg_path: String,
    pub advance_width: u16,
    pub bounding_box: Option<BBox>,
    pub contour_count: usize,
    pub point_count: usize,
}

/// Complete font analysis report.
#[derive(Debug)]
pub struct FontReport {
    pub font_file: String,
    pub family_name: Option<String>,
    pub units_per_em: u16,
    pub glyph_count: u16,
    pub total_exported: usize,
    pub glyphs: Vec<GlyphInfo>,
}

/// Font metadata for the info command.
#[derive(Debug)]
pub struct FontMetadata {
    pub font_file: String,
    pub family_name: Option<String>,
    pub units_per_em: u16,
    pub glyph_count: u16,
    pub is_variable: bool,
    pub has_cff: bool,
    pub has_glyf: bool,
    pub ascender: Option<i16>,
    pub descender: Option<i16>,
    pub line_gap: Option<i16>,
}

/// A hexadecimal digit, in any case.
pub open spec fn is_hex_digit(c: char) -> bool {
    ('0' <= c && c <= '9') || ('a' <= c && c <= 'f') || ('A' <= c && c <= 'F')
}

/// Numeric value of one hexadecimal digit.
pub open spec fn hex_digit_value(c: char) -> int {
    if '0' <= c && c <= '9' {
        c as int - '0' as int
    } else if 'a' <= c && c <= 'f' {
        c as int - 'a' as int + 10
    } else {
        c as int - 'A' as int + 10
    }
}

/// Every character of `s` is a hexadecimal digit.
pub open spec fn all_hex_digits(s: Seq<char>) -> bool {
    forall|i: int| 0 <= i < s.len() ==> is_hex_digit(#[trigger] s[i])
}

/// The unbounded numeric value of a hexadecimal digit string.
pub open spec fn hex_value(s: Seq<char>) -> int
    decreases s.len(),
{
    if s.len() == 0 {
        0
    } else {
        hex_value(s.drop_last()) * 16 + hex_digit_value(s.last())
    }
}

/// One optional leading `+`, as the standard integer parser accepts.
pub open spec fn strip_plus(s: Seq<char>) -> Seq<char> {
    if s.len() > 0 && s[0] == '+' {
        s.drop_first()
    } else {
        s
    }
}

/// What parsing `s` as a base-16 `u32` yields: at least one digit after an
/// optional sign, all digits hexadecimal, and the value within range.
pub open spec fn parse_hex_u32(s: Seq<char>) -> Option<u32> {
    let d = strip_plus(s);
    if d.len() > 0 && all_hex_digits(d) && hex_value(d) <= u32::MAX {
        Some(hex_value(d) as u32)
    } else {
        None
    }
}

/// `s` with every repetition of the prefix `U+` removed.
pub open spec fn strip_unicode_prefix(s: Seq<char>) -> Seq<char>
    decreases s.len(),
{
    if s.len() >= 2 && s[0] == 'U' && s[1] == '+' {
        strip_unicode_prefix(s.subrange(2, s.len() as int))
    } else {
        s
    }
}

/// What parsing a `U+XXXX` notation yields.
pub open spec fn unicode_hex_value(s: Seq<char>) -> Option<u32> {
    parse_hex_u32(strip_unicode_prefix(s))
}

/// The value of a digit string is never negative.
proof fn lemma_hex_value_nonneg(s: Seq<char>)
    requires
        all_hex_digits(s),
    ensures
        hex_value(s) >= 0,
    decreases s.len(),
{
    if s.len() > 0 {
        assert(all_hex_digits(s.drop_last()));
        lemma_hex_value_nonneg(s.drop_last());
    }
}

/// The value of a prefix of a digit string is at most the whole string's.
proof fn lemma_hex_prefix_le(s: Seq<char>, k: int)
    requires
        0 <= k <= s.len(),
        all_hex_digits(s),
    ensures
        hex_value(s.subrange(0, k)) <= hex_value(s),
    decreases s.len() - k,
{
    if k == s.len() {
        assert(s.subrange(0, k) =~= s);
    } else {
        let t = s.subrange(0, k + 1);
        lemma_hex_prefix_le(s, k + 1);
        assert(t.drop_last() =~= s.subrange(0, k));
        assert(all_hex_digits(t.drop_last()));
        lemma_hex_value_nonneg(t.drop_last());
        assert(hex_value(t) == hex_value(s.subrange(0, k)) * 16 + hex_digit_value(t.last()));
    }
}

/// Executable test for a hexadecimal digit.
fn hex_digit(c: char) -> (r: bool)
    ensures
        r == is_hex_digit(c),
{
    ('0' <= c && c <= '9') || ('a' <= c && c <= 'f') || ('A' <= c && c <= 'F')
}

/// Numeric value of one hexadecimal digit.
fn hex_digit_val(c: char) -> (r: u32)
    requires
        is_hex_digit(c),
    ensures
        r == hex_digit_value(c),
        r < 16,
{
    if '0' <= c && c <= '9' {
        (c as u32) - ('0' as u32)
    } else if 'a' <= c && c <= 'f' {
        (c as u32) - ('a' as u32) + 10
    } else {
        (c as u32) - ('A' as u32) + 10
    }
}

/// Parse `s[start..end]` as a base-16 `u32`, with one optional leading `+`.
fn parse_hex_range(s: &str, start: usize, end: usize) -> (r: Option<u32>)
    requires
        start <= end <= s@.len(),
    ensures
        r == parse_hex_u32(s@.subrange(start as int, end as int)),
{
    let ghost whole = s@.subrange(start as int, end as int);
    let d_start: usize = if start < end && s.get_char(start) == '+' {
        start + 1
    } else {
        start
    };
    let ghost d = s@.subrange(d_start as int, end as int);
    proof {
        if start < end && s@[start as int] == '+' {
            assert(whole.drop_first() =~= d);
        } else {
            assert(whole =~= d);
        }
        assert(strip_plus(whole) == d);
    }
    if d_start == end {
        return None;
    }
    let mut i: usize = d_start;
    let mut acc: u32 = 0;
    while i < end
        invariant
            start <= d_start <= i <= end <= s@.len(),
            d == s@.subrange(d_start as int, end as int),
            strip_plus(s@.subrange(start as int, end as int)) == d,
            forall|j: int| 0 <= j < i - d_start ==> is_hex_digit(#[trigger] d[j]),
            acc == hex_value(s@.subrange(d_start as int, i as int)),
        decreases end - i,
    {
        let c = s.get_char(i);
        proof {
            assert(d[i - d_start] == s@[i as int]);
        }
        if !hex_digit(c) {
            proof {
                assert(!all_hex_digits(d));
            }
            return None;
        }
        let v = hex_digit_val(c);
        let wide: u64 = (acc as u64) * 16 + (v as u64);
        proof {
            let p = s@.subrange(d_start as int, i as int + 1);
            assert(p.drop_last() =~= s@.subrange(d_start as int, i as int));
            assert(p.last() == s@[i as int]);
            assert(hex_value(p) == acc * 16 + v);
        }
        if wide > 0xffff_ffffu64 {
            proof {
                if all_hex_digits(d) {
                    let p = s@.subrange(d_start as int, i as int + 1);
                    assert(p =~= d.subrange(0, i - d_start + 1));
                    lemma_hex_prefix_le(d, i - d_start + 1);
                    assert(hex_value(d) > u32::MAX);
                }
            }
            return None;
        }
        acc = wide as u32;
        i = i + 1;
    }
    proof {
        assert(s@.subrange(d_start as int, i as int) =~= d);
        assert(all_hex_digits(d));
    }
    Some(acc)
}

/// Parse a `U+XXXX` (or bare hexadecimal) Unicode notation.
pub fn parse_unicode_hex(unicode_str: &str) -> (r: Option<u32>)
    ensures
        r == unicode_hex_value(unicode_str@),
{
    let n = unicode_str.unicode_len();
    proof {
        assert(unicode_str@.subrange(0, n as int) =~= unicode_str@);
    }
    let mut start: usize = 0;
    while n - start >= 2 && unicode_str.get_char(start) == 'U' && unicode_str.get_char(start + 1)
        == '+'
        invariant
            start <= n,
            n == unicode_str@.len(),
            strip_unicode_prefix(unicode_str@) == strip_unicode_prefix(
                unicode_str@.subrange(start as int, n as int),
            ),
        decreases n - start,
    {
        proof {
            let s = unicode_str@.subrange(start as int, n as int);
            assert(s.subrange(2, s.len() as int) =~= unicode_str@.subrange(
                start as int + 2,
                n as int,
            ));
        }
        start = start + 2;
    }
    proof {
        assert(strip_unicode_prefix(unicode_str@) == unicode_str@.subrange(start as int, n as int));
    }
    parse_hex_range(unicode_str, start, n)
}

/// How many times `c` occurs in `s`.
pub open spec fn count_char(s: Seq<char>, c: char) -> int
    decreases s.len(),
{
    if s.len() == 0 {
        0
    } else {
        count_char(s.drop_last(), c) + if s.last() == c {
            1int
        } else {
            0int
        }
    }
}

/// Why a range expression was rejected.
#[derive(Clone, Copy, Debug, PartialEq, Eq, Structural)]
pub enum RangeParseError {
    /// Not exactly one `-` between two parts.
    Format,
    /// A bound is not a hexadecimal number that fits.
    Digit,
    /// The lower bound exceeds the upper.
    Order,
}

/// `s` with every repetition of the prefix `0x` removed.
pub open spec fn strip_hex_prefix(s: Seq<char>) -> Seq<char>
    decreases s.len(),
{
    if s.len() >= 2 && s[0] == '0' && s[1] == 'x' {
        strip_hex_prefix(s.subrange(2, s.len() as int))
    } else {
        s
    }
}

/// What parsing a range expression `LOW-HIGH` yields: exactly one dash,
/// both sides hexadecimal after any `0x` prefixes, and low at most high.
pub open spec fn parse_range_spec(s: Seq<char>) -> Result<(u32, u32), RangeParseError> {
    if count_char(s, '-') != 1 {
        Err(RangeParseError::Format)
    } else {
        let k = choose|k: int| 0 <= k < s.len() && s[k] == '-';
        match parse_hex_u32(strip_hex_prefix(s.subrange(0, k))) {
            Some(lo) => match parse_hex_u32(strip_hex_prefix(s.subrange(k + 1, s.len() as int))) {
                Some(hi) => if lo > hi {
                    Err(RangeParseError::Order)
                } else {
                    Ok((lo, hi))
                },
                None => Err(RangeParseError::Digit),
            },
            None => Err(RangeParseError::Digit),
        }
    }
}

/// One occurrence gives a count of at least one.
proof fn lemma_count_char_at_least_one(s: Seq<char>, c: char, i: int)
    requires
        0 <= i < s.len(),
        s[i] == c,
    ensures
        count_char(s, c) >= 1,
    decreases s.len(),
{
    lemma_count_char_nonneg(s.drop_last(), c);
    if i < s.len() - 1 {
        lemma_count_char_at_least_one(s.drop_last(), c, i);
    }
}

/// Counts are never negative.
proof fn lemma_count_char_nonneg(s: Seq<char>, c: char)
    ensures
        count_char(s, c) >= 0,
    decreases s.len(),
{
    if s.len() > 0 {
        lemma_count_char_nonneg(s.drop_last(), c);
    }
}

/// Two distinct occurrences give a count of at least two.
proof fn lemma_count_char_at_least_two(s: Seq<char>, c: char, i: int, j: int)
    requires
        0 <= i < j < s.len(),
        s[i] == c,
        s[j] == c,
    ensures
        count_char(s, c) >= 2,
    decreases s.len(),
{
    if j == s.len() - 1 {
        lemma_count_char_at_least_one(s.drop_last(), c, i);
    } else {
        lemma_count_char_at_least_two(s.drop_last(), c, i, j);
    }
}

/// Counting over a prefix grows by one exactly at occurrences.
proof fn lemma_count_char_step(s: Seq<char>, c: char, i: int)
    requires
        0 <= i < s.len(),
    ensures
        count_char(s.subrange(0, i + 1), c) == count_char(s.subrange(0, i), c) + if s[i] == c {
            1int
        } else {
            0int
        },
{
    let t = s.subrange(0, i + 1);
    assert(t.drop_last() =~= s.subrange(0, i));
}

/// Character range specification.
#[derive(Debug, Clone)]
pub struct UnicodeRange {
    pub start: u32,
    pub end: u32,
}

impl UnicodeRange {
    /// Parse a range expression such as `0x4E00-0x9FFF`.
    pub fn parse(s: &str) -> (r: Result<Self, RangeParseError>)
        ensures
            r matches Ok(u) ==> parse_range_spec(s@) == Ok::<(u32, u32), RangeParseError>(
                (u.start, u.end),
            ),
            r matches Err(e) ==> parse_range_spec(s@) == Err::<(u32, u32), RangeParseError>(e),
    {
        let n = s.unicode_len();
        let mut dashes: usize = 0;
        let mut first_dash: usize = 0;
        let mut i: usize = 0;
        proof {
            assert(s@.subrange(0, 0) =~= Seq::<char>::empty());
        }
        while i < n
            invariant
                i <= n,
                n == s@.len(),
                dashes <= i,
                dashes == count_char(s@.subrange(0, i as int), '-'),
                dashes > 0 ==> first_dash < i && s@[first_dash as int] == '-',
                dashes == 0 ==> forall|j: int| 0 <= j < i ==> s@[j] != '-',
            decreases n - i,
        {
            proof {
                lemma_count_char_step(s@, '-', i as int);
            }
            if s.get_char(i) == '-' {
                if dashes == 0 {
                    first_dash = i;
                }
                dashes = dashes + 1;
            }
            i = i + 1;
        }
        proof {
            assert(s@.subrange(0, n as int) =~= s@);
        }
        if dashes != 1 {
            return Err(RangeParseError::Format);
        }
        let ghost k = choose|k: int| 0 <= k < s@.len() && s@[k] == '-';
        proof {
            assert(s@[first_dash as int] == '-');
            if k != first_dash {
                if k < first_dash {
                    lemma_count_char_at_least_two(s@, '-', k, first_dash as int);
                } else {
                    lemma_count_char_at_least_two(s@, '-', first_dash as int, k);
                }
            }
            assert(k == first_dash);
        }
        let lo = match parse_hex_prefixed(s, 0, first_dash) {
            Some(v) => v,
            None => { return Err(RangeParseError::Digit); },
        };
        let hi = match parse_hex_prefixed(s, first_dash + 1, n) {
            Some(v) => v,
            None => { return Err(RangeParseError::Digit); },
        };
        if lo > hi {
            return Err(RangeParseError::Order);
        }
        Ok(UnicodeRange { start: lo, end: hi })
    }

    /// Whether a codepoint falls inside this range, inclusive on both ends.
    pub fn contains(&self, codepoint: u32) -> (r: bool)
        ensures
            r == (self.start <= codepoint && codepoint <= self.end),
    {
        codepoint >= self.start && codepoint <= self.end
    }
}

/// Parse `s[start..end]` as hexadecimal after removing `0x` prefixes.
fn parse_hex_prefixed(s: &str, start: usize, end: usize) -> (r: Option<u32>)
    requires
        start <= end <= s@.len(),
    ensures
        r == parse_hex_u32(strip_hex_prefix(s@.subrange(start as int, end as int))),
{
    let ghost whole = s@.subrange(start as int, end as int);
    let mut from: usize = start;
    while end - from >= 2 && s.get_char(from) == '0' && s.get_char(from + 1) == 'x'
        invariant
            start <= from <= end <= s@.len(),
            strip_hex_prefix(whole) == strip_hex_prefix(s@.subrange(from as int, end as int)),
            whole == s@.subrange(start as int, end as int),
        decreases end - from,
    {
        proof {
            let t = s@.subrange(from as int, end as int);
            assert(t.subrange(2, t.len() as int) =~= s@.subrange(from as int + 2, end as int));
        }
        from = from + 2;
    }
    proof {
        assert(strip_hex_prefix(whole) == s@.subrange(from as int, end as int));
    }
    parse_hex_range(s, from, end)
}

/// Predefined character-set presets.
#[derive(Debug, Clone, Copy, PartialEq, Eq, Structural)]
pub enum CharsetPreset {
    Latin,
    LatinExtended,
    CjkBasic,
    CjkCommon,
    CjkFull,
}

/// Which preset a name denotes, if any.
pub open spec fn preset_from_chars(s: Seq<char>) -> Option<CharsetPreset> {
    if s == "latin"@ {
        Some(CharsetPreset::Latin)
    } else if s == "latin-extended"@ {
        Some(CharsetPreset::LatinExtended)
    } else if s == "cjk-basic"@ {
        Some(CharsetPreset::CjkBasic)
    } else if s == "cjk-common"@ {
        Some(CharsetPreset::CjkCommon)
    } else if s == "cjk-full"@ {
        Some(CharsetPreset::CjkFull)
    } else {
        None
    }
}

impl CharsetPreset {
    /// Resolve a preset name.
    pub fn from_str(s: &str) -> (r: Option<Self>)
        ensures
            r == preset_from_chars(s@),
    {
        if str_eq(s, "latin") {
            Some(CharsetPreset::Latin)
        } else if str_eq(s, "latin-extended") {
            Some(CharsetPreset::LatinExtended)
        } else if str_eq(s, "cjk-basic") {
            Some(CharsetPreset::CjkBasic)
        } else if str_eq(s, "cjk-common") {
            Some(CharsetPreset::CjkCommon)
        } else if str_eq(s, "cjk-full") {
            Some(CharsetPreset::CjkFull)
        } else {
            None
        }
    }

    /// The codepoint range this preset selects.
    pub fn get_range(&self) -> (r: UnicodeRange)
        ensures
            *self is Latin ==> r.start == 0x0020 && r.end == 0x007f,
            *self is LatinExtended ==> r.start == 0x0020 && r.end == 0x024f,
            *self is CjkBasic ==> r.start == 0x4e00 && r.end == 0x4eff,
            *self is CjkCommon ==> r.start == 0x4e00 && r.end == 0x9fff,
            *self is CjkFull ==> r.start == 0x4e00 && r.end == 0x9fff,
            r.start <= r.end,
            r == spec_preset_range(*self),
    {
        match self {
            CharsetPreset::Latin => UnicodeRange { start: 0x0020, end: 0x007f },
            CharsetPreset::LatinExtended => UnicodeRange { start: 0x0020, end: 0x024f },
            CharsetPreset::CjkBasic => UnicodeRange { start: 0x4e00, end: 0x4eff },
            CharsetPreset::CjkCommon => UnicodeRange { start: 0x4e00, end: 0x9fff },
            CharsetPreset::CjkFull => UnicodeRange { start: 0x4e00, end: 0x9fff },
        }
    }

    /// The cap this preset places on how many glyphs are taken, if any.
    pub fn get_limit(&self) -> (r: Option<usize>)
        ensures
            *self is CjkBasic ==> r == Some(500usize),
            *self is CjkCommon ==> r == Some(3000usize),
            *self is Latin || *self is LatinExtended || *self is CjkFull ==> r is None,
            r == spec_preset_limit(*self),
    {
        match self {
            CharsetPreset::CjkBasic => Some(500),
            CharsetPreset::CjkCommon => Some(3000),
            _ => None,
        }
    }
}

/// The codepoint range a preset selects.
pub open spec fn spec_preset_range(p: CharsetPreset) -> UnicodeRange {
    match p {
        CharsetPreset::Latin => UnicodeRange { start: 0x0020, end: 0x007f },
        CharsetPreset::LatinExtended => UnicodeRange { start: 0x0020, end: 0x024f },
        CharsetPreset::CjkBasic => UnicodeRange { start: 0x4e00, end: 0x4eff },
        CharsetPreset::CjkCommon => UnicodeRange { start: 0x4e00, end: 0x9fff },
        CharsetPreset::CjkFull => UnicodeRange { start: 0x4e00, end: 0x9fff },
    }
}

/// The glyph cap a preset carries.
pub open spec fn spec_preset_limit(p: CharsetPreset) -> Option<usize> {
    match p {
        CharsetPreset::CjkBasic => Some(500usize),
        CharsetPreset::CjkCommon => Some(3000usize),
        _ => None,
    }
}

/// The requested characters, as codepoints, keeping those the font offers.
pub open spec fn chars_selected(cs: Seq<char>, all: Seq<u32>) -> Seq<u32>
    decreases cs.len(),
{
    if cs.len() == 0 {
        seq![]
    } else {
        let rest = chars_selected(cs.drop_last(), all);
        if all.contains(cs.last() as u32) {
            rest.push(cs.last() as u32)
        } else {
            rest
        }
    }
}

/// The font's codepoints that fall inside `[lo, hi]`, in font order.
pub open spec fn range_selected(all: Seq<u32>, lo: u32, hi: u32) -> Seq<u32>
    decreases all.len(),
{
    if all.len() == 0 {
        seq![]
    } else {
        let rest = range_selected(all.drop_last(), lo, hi);
        if lo <= all.last() && all.last() <= hi {
            rest.push(all.last())
        } else {
            rest
        }
    }
}

/// A list cut down to at most `limit` entries.
pub open spec fn apply_limit(v: Seq<u32>, limit: Option<usize>) -> Seq<u32> {
    match limit {
        Some(n) => if v.len() <= n {
            v
        } else {
            v.subrange(0, n as int)
        },
        None => v,
    }
}

/// Which codepoints an extraction request selects from the font's
/// repertoire: explicit characters win over a range expression, a range
/// over a preset, and with none of the three the whole repertoire is
/// taken; the preset's own cap applies before the explicit limit.
pub open spec fn spec_select(
    all: Seq<u32>,
    chars: Option<Seq<char>>,
    range: Option<Seq<char>>,
    preset: Option<CharsetPreset>,
    limit: Option<usize>,
) -> Result<Seq<u32>, RangeParseError> {
    let picked = match chars {
        Some(cs) => Ok(chars_selected(cs, all)),
        None => match range {
            Some(rs) => match parse_range_spec(rs) {
                Ok((lo, hi)) => Ok(range_selected(all, lo, hi)),
                Err(e) => Err(e),
            },
            None => match preset {
                Some(p) => Ok(
                    apply_limit(
                        range_selected(all, spec_preset_range(p).start, spec_preset_range(p).end),
                        spec_preset_limit(p),
                    ),
                ),
                None => Ok(all),
            },
        },
    };
    match picked {
        Ok(v) => Ok(apply_limit(v, limit)),
        Err(e) => Err(e),
    }
}

/// Whether the font's repertoire offers a codepoint.
fn repertoire_has(all: &Vec<u32>, cp: u32) -> (r: bool)
    ensures
        r == all@.contains(cp),
{
    let n = all.len();
    let mut i: usize = 0;
    while i < n
        invariant
            i <= n,
            n == all@.len(),
            forall|j: int| 0 <= j < i ==> all@[j] != cp,
        decreases n - i,
    {
        if all[i] == cp {
            return true;
        }
        i = i + 1;
    }
    false
}

/// Keep the requested characters that the repertoire offers.
fn pick_chars(cs: &str, all: &Vec<u32>) -> (r: Vec<u32>)
    ensures
        r@ == chars_selected(cs@, all@),
{
    let n = cs.unicode_len();
    let mut out: Vec<u32> = Vec::new();
    let mut i: usize = 0;
    while i < n
        invariant
            i <= n,
            n == cs@.len(),
            out@ == chars_selected(cs@.subrange(0, i as int), all@),
        decreases n - i,
    {
        let cp = cs.get_char(i) as u32;
        proof {
            let p = cs@.subrange(0, i as int + 1);
            assert(p.drop_last() =~= cs@.subrange(0, i as int));
            assert(p.last() == cs@[i as int]);
        }
        if repertoire_has(all, cp) {
            out.push(cp);
        }
        i = i + 1;
    }
    proof {
        assert(cs@.subrange(0, n as int) =~= cs@);
    }
    out
}

/// Keep the repertoire's codepoints inside an inclusive range.
fn pick_range(all: &Vec<u32>, lo: u32, hi: u32) -> (r: Vec<u32>)
    ensures
        r@ == range_selected(all@, lo, hi),
{
    let n = all.len();
    let mut out: Vec<u32> = Vec::new();
    let mut i: usize = 0;
    while i < n
        invariant
            i <= n,
            n == all@.len(),
            out@ == range_selected(all@.subrange(0, i as int), lo, hi),
        decreases n - i,
    {
        let cp = all[i];
        proof {
            let p = all@.subrange(0, i as int + 1);
            assert(p.drop_last() =~= all@.subrange(0, i as int));
            assert(p.last() == all@[i as int]);
        }
        if lo <= cp && cp <= hi {
            out.push(cp);
        }
        i = i + 1;
    }
    proof {
        assert(all@.subrange(0, n as int) =~= all@);
    }
    out
}

/// Cut a list down to a cap, when one is given.
fn truncate_to(v: &mut Vec<u32>, limit: Option<usize>)
    ensures
        final(v)@ == apply_limit(old(v)@, limit),
{
    match limit {
        Some(n) => {
            let ghost pre = v@;
            v.truncate(n);
            proof {
                assert(v@ =~= apply_limit(pre, limit));
            }
        },
        None => {},
    }
}

/// Decide which codepoints an extraction request covers, given the font's
/// full repertoire in font order: explicit characters, else a range
/// expression, else a preset with its cap, else everything; an explicit
/// limit is applied last.
pub fn select_codepoints(
    all: Vec<u32>,
    chars: Option<&str>,
    range: Option<&str>,
    preset: Option<CharsetPreset>,
    limit: Option<usize>,
) -> (r: Result<Vec<u32>, RangeParseError>)
    ensures
        r matches Ok(v) ==> spec_select(
            all@,
            match chars {
                Some(cs) => Some(cs@),
                None => None,
            },
            match range {
                Some(rs) => Some(rs@),
                None => None,
            },
            preset,
            limit,
        ) == Ok::<Seq<u32>, RangeParseError>(v@),
        r matches Err(e) ==> spec_select(
            all@,
            match chars {
                Some(cs) => Some(cs@),
                None => None,
            },
            match range {
                Some(rs) => Some(rs@),
                None => None,
            },
            preset,
            limit,
        ) == Err::<Seq<u32>, RangeParseError>(e),
{
    let mut picked: Vec<u32> = if let Some(cs) = chars {
        pick_chars(cs, &all)
    } else if let Some(rs) = range {
        match UnicodeRange::parse(rs) {
            Ok(u) => pick_range(&all, u.start, u.end),
            Err(e) => { return Err(e); },
        }
    } else if let Some(p) = preset {
        let u = p.get_range();
        let mut chosen = pick_range(&all, u.start, u.end);
        truncate_to(&mut chosen, p.get_limit());
        chosen
    } else {
        all
    };
    truncate_to(&mut picked, limit);
    Ok(picked)
}

/// Resolve a preset name, reporting the valid options on failure.
pub fn parse_preset(s: &str) -> (r: Result<CharsetPreset, String>)
    ensures
        r matches Ok(p) ==> preset_from_chars(s@) == Some(p),
        r is Err ==> preset_from_chars(s@) is None,
{
    match CharsetPreset::from_str(s) {
        Some(p) => Ok(p),
        None => Err(String::from_str(
            "Invalid preset. Valid options: latin, latin-extended, cjk-basic, cjk-common, cjk-full",
        )),
    }
}

} // verus!
