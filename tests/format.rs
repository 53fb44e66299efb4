use peek::color::{expand_hex_shorthand, normalize_hex_color, paint_for, parse_hex_color, trim_hashes, Config, Paint, Rgb};
use peek::perm::format_permissions;
use peek::size::format_size;
use peek::tree::Category;

#[test]
fn hex_normalization() {
    assert_eq!(normalize_hex_color("#F00"), "FF0000");
    assert_eq!(normalize_hex_color("00ff00"), "00FF00");
    assert_eq!(normalize_hex_color("##abc"), "AABBCC");
    assert_eq!(normalize_hex_color("12345"), "12345");
}

#[test]
fn shorthand_expansion_takes_uppercased_text() {
    assert_eq!(expand_hex_shorthand("F0A"), "FF00AA");
    assert_eq!(expand_hex_shorthand("FF0000"), "FF0000");
    assert_eq!(trim_hashes("##x#"), "x#");
}

#[test]
fn hex_parsing() {
    assert_eq!(parse_hex_color("FF8000"), Some(Rgb { r: 255, g: 128, b: 0 }));
    assert_eq!(parse_hex_color("ff8000"), Some(Rgb { r: 255, g: 128, b: 0 }));
    assert_eq!(parse_hex_color("+F0000"), None);
    assert_eq!(parse_hex_color("+F+F+F"), None);
    assert_eq!(parse_hex_color("FF800"), None);
    assert_eq!(parse_hex_color("GG0000"), None);
}

#[test]
fn stored_color_round_trip() {
    let mut c = Config::new();
    assert_eq!(c.dir_rgb(), None);
    c.set_dir_color("#0f0");
    assert_eq!(c.dir_color.as_deref(), Some("00FF00"));
    let text = serde_json::to_string(&c.dir_color).unwrap();
    let back: Option<String> = serde_json::from_str(&text).unwrap();
    let fresh = Config { dir_color: back };
    assert_eq!(fresh.dir_rgb(), Some(Rgb { r: 0, g: 255, b: 0 }));
}

#[test]
fn paints() {
    let c = Rgb { r: 1, g: 2, b: 3 };
    assert_eq!(paint_for(Category::Directory, Some(c)), Paint::BoldRgb(c));
    assert_eq!(paint_for(Category::Directory, None), Paint::BoldBlue);
    assert_eq!(paint_for(Category::Source, Some(c)), Paint::Green);
    assert_eq!(paint_for(Category::Plain, None), Paint::White);
}

#[test]
fn sizes() {
    assert_eq!(format_size(0), "0 B");
    assert_eq!(format_size(1023), "1023 B");
    assert_eq!(format_size(1024), "1.00 KB");
    assert_eq!(format_size(1536), "1.50 KB");
    assert_eq!(format_size(1048576), "1.00 MB");
    assert_eq!(format_size(1073741824), "1.00 GB");
    assert_eq!(format_size(1048575), "1024.00 KB");
    assert_eq!(format_size(u64::MAX), "17179869184.00 GB");
}

#[test]
fn sizes_round_ties_to_even() {
    // 1029 / 1024 = 1.0048828125 rounds down; 1034 / 1024 = 1.009765625 rounds up.
    assert_eq!(format_size(1029), "1.00 KB");
    assert_eq!(format_size(1034), "1.01 KB");
    // 1152 / 1024 = 1.125 is a tie: the even neighbour 1.12 wins.
    assert_eq!(format_size(1152), "1.12 KB");
    assert_eq!(format_size(1152), format!("{:.2} KB", 1152f64 / 1024f64));
}

#[test]
fn permissions() {
    assert_eq!(format_permissions(0o755), "rwxr-xr-x");
    assert_eq!(format_permissions(0o644), "rw-r--r--");
    assert_eq!(format_permissions(0), "---------");
    assert_eq!(format_permissions(0o100777), "rwxrwxrwx");
}
