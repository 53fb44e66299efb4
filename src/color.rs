//! Directory colors: normalizing a hex code given by the user, parsing the
//! stored code into an RGB triple, the persisted preference, and the paint
//! each display category gets.
use vstd::prelude::*;
use vstd::string::*;
use vstd::utf8::encode_utf8;
use crate::text::push_char;
use crate::tree::Category;

verus! {

/// An RGB color.
#[derive(Clone, Copy, Debug, PartialEq, Eq, Structural)]
pub struct Rgb {
    pub r: u8,
    pub g: u8,
    pub b: u8,
}

/// How a name is painted on the terminal.
#[derive(Clone, Copy, Debug, PartialEq, Eq, Structural)]
pub enum Paint {
    BoldRgb(Rgb),
    BoldBlue,
    Green,
    White,
}

/// The persisted preferences: the normalized hex code of the directory color.
pub struct Config {
    pub dir_color: Option<String>,
}

/// The uppercase form of a text, as `str::to_uppercase` gives it.
pub uninterp spec fn upper_of(s: Seq<char>) -> Seq<char>;

/// Relies on `str::to_uppercase`: the result depends on the characters alone.
#[verifier::external_body]
fn to_upper(s: &str) -> (r: String)
    ensures
        r@ == upper_of(s@),
{
    s.to_uppercase()
}

/// `s` without its leading `#` characters.
pub open spec fn strip_hashes(s: Seq<char>) -> Seq<char>
    decreases s.len(),
{
    if s.len() > 0 && s[0] == '#' {
        strip_hashes(s.drop_first())
    } else {
        s
    }
}

/// Each character of `s` written twice.
pub open spec fn doubled(s: Seq<char>) -> Seq<char>
    decreases s.len(),
{
    if s.len() == 0 {
        Seq::empty()
    } else {
        doubled(s.drop_last()) + seq![s.last(), s.last()]
    }
}

/// A code of three bytes is shorthand: each character doubles. Others stay.
pub open spec fn expand_shorthand(u: Seq<char>) -> Seq<char> {
    if encode_utf8(u).len() == 3 {
        doubled(u)
    } else {
        u
    }
}

/// The stored form of a color code given by the user.
pub open spec fn normalized(input: Seq<char>) -> Seq<char> {
    expand_shorthand(upper_of(strip_hashes(input)))
}

/// The value of a hex digit, either case.
pub open spec fn hex_value(c: char) -> Option<u8> {
    if '0' <= c <= '9' {
        Some((c as u32 - '0' as u32) as u8)
    } else if 'a' <= c <= 'f' {
        Some((c as u32 - 'a' as u32 + 10) as u8)
    } else if 'A' <= c <= 'F' {
        Some((c as u32 - 'A' as u32 + 10) as u8)
    } else {
        None
    }
}

/// The value of a field of two hex digits; `None` unless both are digits.
pub open spec fn byte_value(a: char, b: char) -> Option<u8> {
    match (hex_value(a), hex_value(b)) {
        (Some(x), Some(y)) => Some((16 * x + y) as u8),
        _ => None,
    }
}

/// The color a six-character code stands for, if each field reads.
pub open spec fn hex_rgb(s: Seq<char>) -> Option<Rgb> {
    if s.len() != 6 {
        None
    } else {
        match (byte_value(s[0], s[1]), byte_value(s[2], s[3]), byte_value(s[4], s[5])) {
            (Some(r), Some(g), Some(b)) => Some(Rgb { r, g, b }),
            _ => None,
        }
    }
}

/// The directory color a configuration yields.
pub open spec fn config_rgb(c: Config) -> Option<Rgb> {
    match c.dir_color {
        Some(s) => hex_rgb(s@),
        None => None,
    }
}

pub open spec fn paint_of(category: Category, dir_color: Option<Rgb>) -> Paint {
    match category {
        Category::Directory => match dir_color {
            Some(c) => Paint::BoldRgb(c),
            None => Paint::BoldBlue,
        },
        Category::Source => Paint::Green,
        Category::Plain => Paint::White,
    }
}

fn hex_digit(c: char) -> (r: Option<u8>)
    ensures
        r == hex_value(c),
{
    if '0' <= c && c <= '9' {
        Some((c as u32 - '0' as u32) as u8)
    } else if 'a' <= c && c <= 'f' {
        Some((c as u32 - 'a' as u32 + 10) as u8)
    } else if 'A' <= c && c <= 'F' {
        Some((c as u32 - 'A' as u32 + 10) as u8)
    } else {
        None
    }
}

fn parse_byte(a: char, b: char) -> (r: Option<u8>)
    ensures
        r == byte_value(a, b),
{
    match (hex_digit(a), hex_digit(b)) {
        (Some(x), Some(y)) => Some(16 * x + y),
        _ => None,
    }
}

/// Reads a six-digit hex code into a color; `None` where it is not one.
pub fn parse_hex_color(hex: &str) -> (r: Option<Rgb>)
    ensures
        r == hex_rgb(hex@),
{
    if hex.unicode_len() != 6 {
        return None;
    }
    let r = parse_byte(hex.get_char(0), hex.get_char(1));
    let g = parse_byte(hex.get_char(2), hex.get_char(3));
    let b = parse_byte(hex.get_char(4), hex.get_char(5));
    match (r, g, b) {
        (Some(r), Some(g), Some(b)) => Some(Rgb { r, g, b }),
        _ => None,
    }
}

/// `s` without its leading `#` characters.
pub fn trim_hashes(s: &str) -> (r: &str)
    ensures
        r@ == strip_hashes(s@),
{
    let n = s.unicode_len();
    let mut k: usize = 0;
    assert(s@.subrange(0, n as int) =~= s@);
    while k < n && s.get_char(k) == '#'
        invariant
            n == s@.len(),
            k <= n,
            strip_hashes(s@) == strip_hashes(s@.subrange(k as int, n as int)),
        decreases n - k,
    {
        assert(s@.subrange(k as int, n as int).drop_first() =~= s@.subrange(k + 1, n as int));
        k = k + 1;
    }
    s.substring_char(k, n)
}

/// Expands an uppercased code: where it is three bytes long, each character
/// is doubled; any other code is returned as it is.
pub fn expand_hex_shorthand(upper: &str) -> (r: String)
    ensures
        r@ == expand_shorthand(upper@),
{
    let bytes = upper.as_bytes();
    if bytes.len() != 3 {
        return upper.to_owned();
    }
    let n = upper.unicode_len();
    let mut r = String::new();
    let mut i: usize = 0;
    while i < n
        invariant
            n == upper@.len(),
            i <= n,
            r@ == doubled(upper@.subrange(0, i as int)),
        decreases n - i,
    {
        let c = upper.get_char(i);
        push_char(&mut r, c);
        push_char(&mut r, c);
        assert(upper@.subrange(0, i + 1).drop_last() =~= upper@.subrange(0, i as int));
        assert(r@ =~= doubled(upper@.subrange(0, i + 1)));
        i = i + 1;
    }
    assert(upper@.subrange(0, n as int) =~= upper@);
    r
}

/// Normalizes a color code given by the user: leading `#` characters go, the
/// letters become uppercase, and three-digit shorthand is expanded by
/// doubling each digit.
pub fn normalize_hex_color(input: &str) -> (r: String)
    ensures
        r@ == normalized(input@),
{
    let upper = to_upper(trim_hashes(input));
    expand_hex_shorthand(upper.as_str())
}

impl Config {
    /// The configuration with no stored preference.
    pub fn new() -> (r: Config)
        ensures
            r.dir_color is None,
    {
        Config { dir_color: None }
    }

    /// Stores the normalized form of `code` as the directory color.
    pub fn set_dir_color(&mut self, code: &str)
        ensures
            final(self).dir_color matches Some(s) && s@ == normalized(code@),
    {
        self.dir_color = Some(normalize_hex_color(code));
    }

    /// The directory color the configuration yields; `None` where none is
    /// stored or the stored code does not read as a color.
    pub fn dir_rgb(&self) -> (r: Option<Rgb>)
        ensures
            r == config_rgb(*self),
    {
        match &self.dir_color {
            Some(s) => parse_hex_color(s.as_str()),
            None => None,
        }
    }
}

/// The paint for a category: directories in the configured color, or bold
/// blue; source files green; the rest white.
pub fn paint_for(category: Category, dir_color: Option<Rgb>) -> (r: Paint)
    ensures
        r == paint_of(category, dir_color),
{
    match category {
        Category::Directory => match dir_color {
            Some(c) => Paint::BoldRgb(c),
            None => Paint::BoldBlue,
        },
        Category::Source => Paint::Green,
        Category::Plain => Paint::White,
    }
}

/// A configuration that holds the stored form of a code, as `set_dir_color`
/// leaves it and as it is read back later, yields in every render the color
/// that the normalized code stands for.
pub proof fn lemma_stored_color_round_trip(code: Seq<char>, stored: Config)
    requires
        stored.dir_color matches Some(s) && s@ == normalized(code),
    ensures
        config_rgb(stored) == hex_rgb(normalized(code)),
{
}

} // verus!
