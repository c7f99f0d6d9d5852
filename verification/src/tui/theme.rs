//! The colors and styles the diff view is drawn with.
use vstd::prelude::*;

use crate::style::{Color, Modifier, Style};
use crate::text::{chars_eq, chars_of, string_of};

verus! {

/// The colors and styles of the diff view.
#[derive(Debug, Clone, Copy, PartialEq, Eq)]
pub struct Theme {
    pub added_bg: Color,
    pub removed_bg: Color,
    pub binary_bg: Color,
    pub selected_modifier: Modifier,
    pub selected_bg: Option<Color>,
    pub selected_added_fg: Option<Color>,
    pub selected_removed_fg: Option<Color>,
    pub hunk_header: Style,
    pub selector_highlight: Style,
    pub warning: Style,
}

/// The built-in theme.
pub open spec fn default_theme() -> Theme {
    Theme {
        added_bg: Color::Green,
        removed_bg: Color::Red,
        binary_bg: Color::Gray,
        selected_modifier: Modifier { bits: 65 },
        selected_bg: None,
        selected_added_fg: None,
        selected_removed_fg: None,
        hunk_header: Style { fg: Some(Color::Cyan), bg: None, add_modifier: Modifier { bits: 1 } },
        selector_highlight: Style { fg: Some(Color::Yellow), bg: None, add_modifier: Modifier { bits: 1 } },
        warning: Style { fg: Some(Color::Yellow), bg: None, add_modifier: Modifier { bits: 0 } },
    }
}

impl Theme {
    /// The built-in theme: green added, red removed and gray binary backgrounds, a bold
    /// reversed selection, bold cyan hunk headers, yellow selector and warnings.
    pub fn new() -> (res: Theme)
        ensures
            res == default_theme(),
    {
        let bold_reversed = Modifier::bold().union(Modifier::reversed());
        assert(1u16 | 64u16 == 65u16) by (bit_vector);
        assert(0u16 | 1u16 == 1u16) by (bit_vector);
        Theme {
            added_bg: Color::Green,
            removed_bg: Color::Red,
            binary_bg: Color::Gray,
            selected_modifier: bold_reversed,
            selected_bg: None,
            selected_added_fg: None,
            selected_removed_fg: None,
            hunk_header: Style::new().fg(Color::Cyan).add_modifier(Modifier::bold()),
            selector_highlight: Style::new().fg(Color::Yellow).add_modifier(Modifier::bold()),
            warning: Style::new().fg(Color::Yellow),
        }
    }
}

impl Default for Theme {
    fn default() -> (res: Theme)
        ensures
            res == default_theme(),
    {
        Theme::new()
    }
}

/// Why a color setting was refused.
#[derive(Debug, Clone, Copy, PartialEq, Eq, Structural)]
pub enum ColorParseError {
    /// A `#` color whose rest is not six bytes long.
    HexFormat,
    /// The red channel of a `#rrggbb` color is not a hexadecimal byte.
    InvalidRed,
    /// The green channel of a `#rrggbb` color is not a hexadecimal byte.
    InvalidGreen,
    /// The blue channel of a `#rrggbb` color is not a hexadecimal byte.
    InvalidBlue,
    /// Not a color name, index or hex color.
    Unknown,
}

/// The characters Unicode counts as white space.
pub open spec fn is_white_space(c: char) -> bool {
    let u = c as u32;
    (9 <= u <= 13) || u == 32 || u == 0x85 || u == 0xa0 || u == 0x1680 || (0x2000 <= u <= 0x200a)
        || u == 0x2028 || u == 0x2029 || u == 0x202f || u == 0x205f || u == 0x3000
}

/// `s` without its leading white space.
pub open spec fn trim_start(s: Seq<char>) -> Seq<char>
    decreases s.len(),
{
    if s.len() > 0 && is_white_space(s[0]) {
        trim_start(s.drop_first())
    } else {
        s
    }
}

/// `s` without its trailing white space.
pub open spec fn trim_end(s: Seq<char>) -> Seq<char>
    decreases s.len(),
{
    if s.len() > 0 && is_white_space(s.last()) {
        trim_end(s.drop_last())
    } else {
        s
    }
}

/// An ASCII capital in lower case; any other character as it is.
pub open spec fn ascii_lower(c: char) -> char {
    if 'A' <= c <= 'Z' {
        ((c as u8) + 32) as u8 as char
    } else {
        c
    }
}

/// How a color setting reads once trimmed and with ASCII capitals in lower case.
pub open spec fn normalized_color(raw: Seq<char>) -> Seq<char> {
    trim_end(trim_start(raw)).map_values(|c: char| ascii_lower(c))
}

/// The value of a hexadecimal digit byte.
pub open spec fn hex_digit(b: u8) -> Option<u8> {
    if 48 <= b <= 57 {
        Some((b - 48) as u8)
    } else if 97 <= b <= 102 {
        Some((b - 87) as u8)
    } else if 65 <= b <= 70 {
        Some((b - 55) as u8)
    } else {
        None
    }
}

/// The byte two bytes of text give in base 16: two digits, or `+` and one digit.
pub open spec fn hex_channel(b0: u8, b1: u8) -> Option<u8> {
    if b0 == 43 {
        hex_digit(b1)
    } else {
        match (hex_digit(b0), hex_digit(b1)) {
            (Some(h), Some(l)) => Some((h * 16 + l) as u8),
            _ => None,
        }
    }
}

/// The value of a run of decimal digits.
pub open spec fn decimal_value(ds: Seq<char>) -> int
    decreases ds.len(),
{
    if ds.len() == 0 {
        0
    } else {
        decimal_value(ds.drop_last()) * 10 + (ds.last() as u32 - 48)
    }
}

/// The byte a run of digits gives: at least one digit, at most 255.
pub open spec fn digits_byte(ds: Seq<char>) -> Option<u8> {
    if ds.len() > 0 && (forall|k: int| 0 <= k < ds.len() ==> '0' <= #[trigger] ds[k] <= '9') && decimal_value(ds) <= 255 {
        Some(decimal_value(ds) as u8)
    } else {
        None
    }
}

/// The byte a text gives in base 10: an optional `+`, then at least one digit, at most 255.
pub open spec fn decimal_byte(s: Seq<char>) -> Option<u8> {
    if s.len() > 0 && s[0] == '+' {
        digits_byte(s.drop_first())
    } else {
        digits_byte(s)
    }
}

/// The color a name stands for.
pub open spec fn named_color(c: Seq<char>) -> Option<Color> {
    if c == "black"@ {
        Some(Color::Black)
    } else if c == "red"@ {
        Some(Color::Red)
    } else if c == "green"@ {
        Some(Color::Green)
    } else if c == "yellow"@ {
        Some(Color::Yellow)
    } else if c == "blue"@ {
        Some(Color::Blue)
    } else if c == "magenta"@ {
        Some(Color::Magenta)
    } else if c == "cyan"@ {
        Some(Color::Cyan)
    } else if c == "gray"@ || c == "grey"@ {
        Some(Color::Gray)
    } else if c == "dark-gray"@ || c == "dark-grey"@ {
        Some(Color::DarkGray)
    } else if c == "light-red"@ {
        Some(Color::LightRed)
    } else if c == "light-green"@ {
        Some(Color::LightGreen)
    } else if c == "light-yellow"@ {
        Some(Color::LightYellow)
    } else if c == "light-blue"@ {
        Some(Color::LightBlue)
    } else if c == "light-magenta"@ {
        Some(Color::LightMagenta)
    } else if c == "light-cyan"@ {
        Some(Color::LightCyan)
    } else if c == "white"@ {
        Some(Color::White)
    } else {
        None
    }
}

/// The bytes after the `#` of a normalized color setting.
pub open spec fn hex_bytes(c: Seq<char>) -> Seq<u8> {
    vstd::utf8::encode_utf8(c.drop_first())
}

/// A byte that continues a multi-byte character.
pub open spec fn is_continuation(b: u8) -> bool {
    128 <= b < 192
}

/// The setting can be read without cutting a character: a `#` color of six bytes has
/// character boundaries between its channels.
pub open spec fn color_readable(raw: Seq<char>) -> bool {
    let c = normalized_color(raw);
    c.len() > 0 && c[0] == '#' && hex_bytes(c).len() == 6 ==> !is_continuation(hex_bytes(c)[2])
        && !is_continuation(hex_bytes(c)[4])
}

/// The color a setting names: `reset` or `default`; `#rrggbb` in hexadecimal; a palette index
/// from 0 to 255; or one of the sixteen color names, `grey` spelled either way. Case and
/// surrounding white space do not matter.
pub open spec fn spec_parse_color(raw: Seq<char>) -> Result<Color, ColorParseError> {
    let c = normalized_color(raw);
    if c == "reset"@ || c == "default"@ {
        Ok(Color::Reset)
    } else if c.len() > 0 && c[0] == '#' {
        let b = hex_bytes(c);
        if b.len() != 6 {
            Err(ColorParseError::HexFormat)
        } else {
            match (hex_channel(b[0], b[1]), hex_channel(b[2], b[3]), hex_channel(b[4], b[5])) {
                (None, _, _) => Err(ColorParseError::InvalidRed),
                (Some(_), None, _) => Err(ColorParseError::InvalidGreen),
                (Some(_), Some(_), None) => Err(ColorParseError::InvalidBlue),
                (Some(r), Some(g), Some(bl)) => Ok(Color::Rgb(r, g, bl)),
            }
        }
    } else {
        match decimal_byte(c) {
            Some(n) => Ok(Color::Indexed(n)),
            None => match named_color(c) {
                Some(col) => Ok(col),
                None => Err(ColorParseError::Unknown),
            },
        }
    }
}

/// Whether a character is white space (see [`is_white_space`]).
pub fn white_space(c: char) -> (res: bool)
    ensures
        res == is_white_space(c),
{
    let u = c as u32;
    (9 <= u && u <= 13) || u == 32 || u == 0x85 || u == 0xa0 || u == 0x1680 || (0x2000 <= u && u <= 0x200a)
        || u == 0x2028 || u == 0x2029 || u == 0x202f || u == 0x205f || u == 0x3000
}

/// The characters of `raw`, trimmed and with ASCII capitals in lower case (see
/// [`normalized_color`]).
fn normalize_color(raw: &str) -> (res: Vec<char>)
    ensures
        res@ == normalized_color(raw@),
{
    let cs = chars_of(raw);
    let n = cs.len();
    let mut a: usize = 0;
    assert(raw@.skip(0) =~= raw@);
    while a < n && white_space(cs[a])
        invariant
            cs@ == raw@,
            n == cs@.len(),
            a <= n,
            trim_start(raw@) == trim_start(raw@.skip(a as int)),
        decreases n - a,
    {
        assert(raw@.skip(a as int).drop_first() =~= raw@.skip(a as int + 1));
        a += 1;
    }
    let ghost started = raw@.skip(a as int);
    assert(trim_start(raw@) == started);
    let mut b: usize = n;
    while b > a && white_space(cs[b - 1])
        invariant
            cs@ == raw@,
            n == cs@.len(),
            a <= b <= n,
            started == raw@.skip(a as int),
            trim_end(started) == trim_end(raw@.subrange(a as int, b as int)),
        decreases b - a,
    {
        assert(raw@.subrange(a as int, b as int).drop_last() =~= raw@.subrange(a as int, b as int - 1));
        b -= 1;
    }
    assert(started =~= raw@.subrange(a as int, n as int));
    let ghost trimmed = raw@.subrange(a as int, b as int);
    assert(trim_end(started) == trimmed);
    let mut out: Vec<char> = Vec::new();
    let mut k: usize = a;
    while k < b
        invariant
            cs@ == raw@,
            a <= k <= b <= n,
            n == cs@.len(),
            trimmed == raw@.subrange(a as int, b as int),
            out@ == trimmed.take(k - a).map_values(|c: char| ascii_lower(c)),
        decreases b - k,
    {
        let c = cs[k];
        let l = if 'A' <= c && c <= 'Z' { ((c as u8) + 32) as char } else { c };
        out.push(l);
        assert(trimmed.take(k - a + 1) =~= trimmed.take(k - a).push(c));
        assert(out@ =~= trimmed.take(k - a + 1).map_values(|c: char| ascii_lower(c)));
        k += 1;
    }
    assert(trimmed.take(b - a) =~= trimmed);
    out
}

/// The value of a hexadecimal digit byte (see [`hex_digit`]).
fn hex_digit_exec(b: u8) -> (res: Option<u8>)
    ensures
        res == hex_digit(b),
{
    if 48 <= b && b <= 57 {
        Some(b - 48)
    } else if 97 <= b && b <= 102 {
        Some(b - 87)
    } else if 65 <= b && b <= 70 {
        Some(b - 55)
    } else {
        None
    }
}

/// The byte two bytes of text give in base 16 (see [`hex_channel`]).
fn hex_channel_exec(b0: u8, b1: u8) -> (res: Option<u8>)
    ensures
        res == hex_channel(b0, b1),
{
    if b0 == 43 {
        hex_digit_exec(b1)
    } else {
        match (hex_digit_exec(b0), hex_digit_exec(b1)) {
            (Some(h), Some(l)) => Some(h * 16 + l),
            _ => None,
        }
    }
}

/// Longer runs of digits are worth at least as much.
proof fn lemma_decimal_value_grows(ds: Seq<char>, i: int, j: int)
    requires
        0 <= i <= j <= ds.len(),
        forall|k: int| 0 <= k < ds.len() ==> '0' <= #[trigger] ds[k] <= '9',
    ensures
        decimal_value(ds.take(i)) <= decimal_value(ds.take(j)),
        decimal_value(ds.take(i)) >= 0,
    decreases j - i,
{
    if i < j {
        lemma_decimal_value_grows(ds, i, j - 1);
        assert(ds.take(j).drop_last() =~= ds.take(j - 1));
        lemma_decimal_value_nonneg(ds.take(j - 1));
    } else {
        lemma_decimal_value_nonneg(ds.take(i));
    }
}

/// A run of digits is worth at least nothing.
proof fn lemma_decimal_value_nonneg(ds: Seq<char>)
    requires
        forall|k: int| 0 <= k < ds.len() ==> '0' <= #[trigger] ds[k] <= '9',
    ensures
        decimal_value(ds) >= 0,
    decreases ds.len(),
{
    if ds.len() > 0 {
        lemma_decimal_value_nonneg(ds.drop_last());
    }
}

/// The byte a text gives in base 10 (see [`decimal_byte`]).
fn decimal_byte_exec(s: &Vec<char>) -> (res: Option<u8>)
    ensures
        res == decimal_byte(s@),
{
    let start: usize = if s.len() > 0 && s[0] == '+' { 1 } else { 0 };
    let ghost ds = if s@.len() > 0 && s@[0] == '+' { s@.drop_first() } else { s@ };
    assert(ds =~= s@.subrange(start as int, s@.len() as int));
    assert(decimal_byte(s@) == digits_byte(ds));
    if start >= s.len() {
        assert(ds.len() == 0);
        return None;
    }
    let mut k: usize = start;
    while k < s.len()
        invariant
            start <= k <= s@.len(),
            ds == s@.subrange(start as int, s@.len() as int),
            decimal_byte(s@) == digits_byte(ds),
            forall|m: int| start <= m < k ==> '0' <= #[trigger] s@[m] <= '9',
        decreases s@.len() - k,
    {
        if !('0' <= s[k] && s[k] <= '9') {
            assert(ds[k - start] == s@[k as int]);
            assert(!('0' <= ds[k - start] <= '9'));
            assert(!(forall|m: int| 0 <= m < ds.len() ==> '0' <= #[trigger] ds[m] <= '9'));
            return None;
        }
        k += 1;
    }
    assert forall|m: int| 0 <= m < ds.len() implies '0' <= #[trigger] ds[m] <= '9' by {
        assert(ds[m] == s@[m + start]);
    }
    let mut value: u32 = 0;
    let mut k: usize = start;
    while k < s.len()
        invariant
            start <= k <= s@.len(),
            ds == s@.subrange(start as int, s@.len() as int),
            decimal_byte(s@) == digits_byte(ds),
            forall|m: int| 0 <= m < ds.len() ==> '0' <= #[trigger] ds[m] <= '9',
            value == decimal_value(ds.take(k - start)),
            value <= 255,
        decreases s@.len() - k,
    {
        assert(ds.take(k - start + 1).drop_last() =~= ds.take(k - start));
        assert(ds.take(k - start + 1).last() == s@[k as int]);
        let digit = (s[k] as u32) - 48;
        let next = value * 10 + digit;
        assert(next == decimal_value(ds.take(k - start + 1)));
        if next > 255 {
            proof {
                lemma_decimal_value_grows(ds, k - start + 1, ds.len() as int);
                assert(ds.take(ds.len() as int) =~= ds);
                assert(decimal_value(ds) > 255);
            }
            return None;
        }
        value = next;
        k += 1;
    }
    assert(ds.take(k - start) =~= ds);
    Some(value as u8)
}

/// The color a name stands for (see [`named_color`]).
fn named_color_exec(c: &str) -> (res: Option<Color>)
    ensures
        res == named_color(c@),
{
    if chars_eq(c, "black") {
        Some(Color::Black)
    } else if chars_eq(c, "red") {
        Some(Color::Red)
    } else if chars_eq(c, "green") {
        Some(Color::Green)
    } else if chars_eq(c, "yellow") {
        Some(Color::Yellow)
    } else if chars_eq(c, "blue") {
        Some(Color::Blue)
    } else if chars_eq(c, "magenta") {
        Some(Color::Magenta)
    } else if chars_eq(c, "cyan") {
        Some(Color::Cyan)
    } else if chars_eq(c, "gray") || chars_eq(c, "grey") {
        Some(Color::Gray)
    } else if chars_eq(c, "dark-gray") || chars_eq(c, "dark-grey") {
        Some(Color::DarkGray)
    } else if chars_eq(c, "light-red") {
        Some(Color::LightRed)
    } else if chars_eq(c, "light-green") {
        Some(Color::LightGreen)
    } else if chars_eq(c, "light-yellow") {
        Some(Color::LightYellow)
    } else if chars_eq(c, "light-blue") {
        Some(Color::LightBlue)
    } else if chars_eq(c, "light-magenta") {
        Some(Color::LightMagenta)
    } else if chars_eq(c, "light-cyan") {
        Some(Color::LightCyan)
    } else if chars_eq(c, "white") {
        Some(Color::White)
    } else {
        None
    }
}

/// Whether a color setting can be read without cutting a character (see [`color_readable`]).
pub fn color_is_readable(raw: &str) -> (res: bool)
    ensures
        res == color_readable(raw@),
{
    let c = normalize_color(raw);
    if c.len() > 0 && c[0] == '#' {
        let rest = string_of(&c.as_slice()[1..c.len()]);
        assert(rest@ =~= c@.drop_first());
        let b = rest.as_str().as_bytes();
        if b.len() == 6 {
            return !(128 <= b[2] && b[2] < 192) && !(128 <= b[4] && b[4] < 192);
        }
    }
    true
}

/// The color a setting names (see [`spec_parse_color`]).
pub fn parse_color(raw: &str) -> (res: Result<Color, ColorParseError>)
    requires
        color_readable(raw@),
    ensures
        res == spec_parse_color(raw@),
{
    let c = normalize_color(raw);
    let text = string_of(c.as_slice());
    let t = text.as_str();
    if chars_eq(t, "reset") || chars_eq(t, "default") {
        return Ok(Color::Reset);
    }
    if c.len() > 0 && c[0] == '#' {
        let rest = string_of(&c.as_slice()[1..c.len()]);
        assert(rest@ =~= c@.drop_first());
        let b = rest.as_str().as_bytes();
        if b.len() != 6 {
            return Err(ColorParseError::HexFormat);
        }
        let red = match hex_channel_exec(b[0], b[1]) {
            Some(v) => v,
            None => { return Err(ColorParseError::InvalidRed); },
        };
        let green = match hex_channel_exec(b[2], b[3]) {
            Some(v) => v,
            None => { return Err(ColorParseError::InvalidGreen); },
        };
        let blue = match hex_channel_exec(b[4], b[5]) {
            Some(v) => v,
            None => { return Err(ColorParseError::InvalidBlue); },
        };
        return Ok(Color::Rgb(red, green, blue));
    }
    if let Some(index) = decimal_byte_exec(&c) {
        return Ok(Color::Indexed(index));
    }
    match named_color_exec(t) {
        Some(col) => Ok(col),
        None => Err(ColorParseError::Unknown),
    }
}

/// The color a configured value names, when there is a value and it names one.
pub fn get_color(value: Option<&str>) -> (res: Option<Color>)
    requires
        value matches Some(v) ==> color_readable(v@),
    ensures
        res == match value {
            Some(v) => match spec_parse_color(v@) {
                Ok(c) => Some(c),
                Err(_) => None,
            },
            None => None,
        },
{
    match value {
        Some(v) => match parse_color(v) {
            Ok(c) => Some(c),
            Err(_) => None,
        },
        None => None,
    }
}

/// The Git setting for the background of added lines.
pub const ADDED_BG_KEY: &'static str = "git-review.theme.added-bg";
/// The Git setting for the background of removed lines.
pub const REMOVED_BG_KEY: &'static str = "git-review.theme.removed-bg";
/// The Git setting for the background of binary content.
pub const BINARY_BG_KEY: &'static str = "git-review.theme.binary-bg";
/// The Git setting for the foreground of the file selector's highlighted row.
pub const SELECTOR_HIGHLIGHT_FG_KEY: &'static str = "git-review.theme.selector-highlight-fg";
/// The Git setting for the foreground of warnings.
pub const WARNING_FG_KEY: &'static str = "git-review.theme.warning-fg";

/// The theme's settings as Git's configuration holds them, each when it is set.
pub struct ThemeSettings {
    pub added_bg: Option<String>,
    pub removed_bg: Option<String>,
    pub binary_bg: Option<String>,
    pub selector_highlight_fg: Option<String>,
    pub warning_fg: Option<String>,
}

/// The color a setting names, when it is set and names one.
pub open spec fn setting_color(value: Option<String>) -> Option<Color> {
    match value {
        Some(v) => match spec_parse_color(v@) {
            Ok(c) => Some(c),
            Err(_) => None,
        },
        None => None,
    }
}

/// Every setting that is set can be read without cutting a character.
pub open spec fn settings_readable(s: ThemeSettings) -> bool {
    &&& s.added_bg matches Some(v) ==> color_readable(v@)
    &&& s.removed_bg matches Some(v) ==> color_readable(v@)
    &&& s.binary_bg matches Some(v) ==> color_readable(v@)
    &&& s.selector_highlight_fg matches Some(v) ==> color_readable(v@)
    &&& s.warning_fg matches Some(v) ==> color_readable(v@)
}

/// The built-in theme with each setting that names a color applied: the three backgrounds
/// replaced, the selector highlight and warning foregrounds set.
pub open spec fn themed(s: ThemeSettings) -> Theme {
    let t = default_theme();
    Theme {
        added_bg: match setting_color(s.added_bg) {
            Some(c) => c,
            None => t.added_bg,
        },
        removed_bg: match setting_color(s.removed_bg) {
            Some(c) => c,
            None => t.removed_bg,
        },
        binary_bg: match setting_color(s.binary_bg) {
            Some(c) => c,
            None => t.binary_bg,
        },
        selector_highlight: match setting_color(s.selector_highlight_fg) {
            Some(c) => Style { fg: Some(c), ..t.selector_highlight },
            None => t.selector_highlight,
        },
        warning: match setting_color(s.warning_fg) {
            Some(c) => Style { fg: Some(c), ..t.warning },
            None => t.warning,
        },
        ..t
    }
}

/// The color an optional setting names (see [`setting_color`]).
fn setting_color_exec(value: &Option<String>) -> (res: Option<Color>)
    requires
        value matches Some(v) ==> color_readable(v@),
    ensures
        res == setting_color(*value),
{
    match value {
        Some(v) => get_color(Some(v.as_str())),
        None => None,
    }
}

impl Theme {
    /// The built-in theme with the configured colors applied (see [`themed`]).
    pub fn load(settings: &ThemeSettings) -> (res: Theme)
        requires
            settings_readable(*settings),
        ensures
            res == themed(*settings),
    {
        let mut theme = Theme::new();
        if let Some(color) = setting_color_exec(&settings.added_bg) {
            theme.added_bg = color;
        }
        if let Some(color) = setting_color_exec(&settings.removed_bg) {
            theme.removed_bg = color;
        }
        if let Some(color) = setting_color_exec(&settings.binary_bg) {
            theme.binary_bg = color;
        }
        if let Some(color) = setting_color_exec(&settings.selector_highlight_fg) {
            theme.selector_highlight = theme.selector_highlight.fg(color);
        }
        if let Some(color) = setting_color_exec(&settings.warning_fg) {
            theme.warning = theme.warning.fg(color);
        }
        theme
    }
}

/// With no setting set, the loaded theme is the built-in one.
pub proof fn law_unset_theme_is_default(settings: ThemeSettings)
    requires
        settings.added_bg is None,
        settings.removed_bg is None,
        settings.binary_bg is None,
        settings.selector_highlight_fg is None,
        settings.warning_fg is None,
    ensures
        themed(settings) == default_theme(),
{
}

/// A setting that is a word, neither `reset` nor `default`, is read as a color name: the color
/// of that name when there is one, else it is refused as unknown.
proof fn lemma_word_setting(raw: Seq<char>)
    requires
        normalized_color(raw).len() > 0,
        'a' <= normalized_color(raw)[0] <= 'z',
        normalized_color(raw) != "reset"@,
        normalized_color(raw) != "default"@,
    ensures
        spec_parse_color(raw) == match named_color(normalized_color(raw)) {
            Some(col) => Ok::<Color, ColorParseError>(col),
            None => Err(ColorParseError::Unknown),
        },
{
    let c = normalized_color(raw);
    assert(decimal_byte(c) is None) by {
        assert(!('0' <= c[0] <= '9'));
    }
}

/// Each of the sixteen color names, `grey` spelled either way, and whatever case or white space
/// surrounds it, is read as the color of that name.
pub proof fn law_color_names(raw: Seq<char>)
    ensures
        normalized_color(raw) == "black"@ ==> spec_parse_color(raw) == Ok::<Color, ColorParseError>(Color::Black),
        normalized_color(raw) == "red"@ ==> spec_parse_color(raw) == Ok::<Color, ColorParseError>(Color::Red),
        normalized_color(raw) == "green"@ ==> spec_parse_color(raw) == Ok::<Color, ColorParseError>(Color::Green),
        normalized_color(raw) == "yellow"@ ==> spec_parse_color(raw) == Ok::<Color, ColorParseError>(Color::Yellow),
        normalized_color(raw) == "blue"@ ==> spec_parse_color(raw) == Ok::<Color, ColorParseError>(Color::Blue),
        normalized_color(raw) == "magenta"@ ==> spec_parse_color(raw) == Ok::<Color, ColorParseError>(Color::Magenta),
        normalized_color(raw) == "cyan"@ ==> spec_parse_color(raw) == Ok::<Color, ColorParseError>(Color::Cyan),
        normalized_color(raw) == "gray"@ ==> spec_parse_color(raw) == Ok::<Color, ColorParseError>(Color::Gray),
        normalized_color(raw) == "grey"@ ==> spec_parse_color(raw) == Ok::<Color, ColorParseError>(Color::Gray),
        normalized_color(raw) == "dark-gray"@ ==> spec_parse_color(raw) == Ok::<Color, ColorParseError>(Color::DarkGray),
        normalized_color(raw) == "dark-grey"@ ==> spec_parse_color(raw) == Ok::<Color, ColorParseError>(Color::DarkGray),
        normalized_color(raw) == "light-red"@ ==> spec_parse_color(raw) == Ok::<Color, ColorParseError>(Color::LightRed),
        normalized_color(raw) == "light-green"@ ==> spec_parse_color(raw) == Ok::<Color, ColorParseError>(Color::LightGreen),
        normalized_color(raw) == "light-yellow"@ ==> spec_parse_color(raw) == Ok::<Color, ColorParseError>(Color::LightYellow),
        normalized_color(raw) == "light-blue"@ ==> spec_parse_color(raw) == Ok::<Color, ColorParseError>(Color::LightBlue),
        normalized_color(raw) == "light-magenta"@ ==> spec_parse_color(raw) == Ok::<Color, ColorParseError>(Color::LightMagenta),
        normalized_color(raw) == "light-cyan"@ ==> spec_parse_color(raw) == Ok::<Color, ColorParseError>(Color::LightCyan),
        normalized_color(raw) == "white"@ ==> spec_parse_color(raw) == Ok::<Color, ColorParseError>(Color::White),
{
    reveal_strlit("reset");
    reveal_strlit("default");
    reveal_strlit("black");
    reveal_strlit("red");
    reveal_strlit("green");
    reveal_strlit("yellow");
    reveal_strlit("blue");
    reveal_strlit("magenta");
    reveal_strlit("cyan");
    reveal_strlit("gray");
    reveal_strlit("grey");
    reveal_strlit("dark-gray");
    reveal_strlit("dark-grey");
    reveal_strlit("light-red");
    reveal_strlit("light-green");
    reveal_strlit("light-yellow");
    reveal_strlit("light-blue");
    reveal_strlit("light-magenta");
    reveal_strlit("light-cyan");
    reveal_strlit("white");
    let c = normalized_color(raw);
    if c.len() > 0 && 'a' <= c[0] <= 'z' && c != "reset"@ && c != "default"@ {
        lemma_word_setting(raw);
    }
}

} // verus!
