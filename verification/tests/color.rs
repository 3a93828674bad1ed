use drawio_collab_server::color;

fn float_hex(h: f32, s: f32, l: f32) -> String {
    let c = (1.0 - (2.0 * l - 1.0).abs()) * s;
    let x = c * (1.0 - (((h / 60.0) % 2.0) - 1.0).abs());
    let m = l - c / 2.0;
    let (r1, g1, b1) = if (0.0..60.0).contains(&h) {
        (c, x, 0.0)
    } else if (60.0..120.0).contains(&h) {
        (x, c, 0.0)
    } else if (120.0..180.0).contains(&h) {
        (0.0, c, x)
    } else if (180.0..240.0).contains(&h) {
        (0.0, x, c)
    } else if (240.0..300.0).contains(&h) {
        (x, 0.0, c)
    } else {
        (c, 0.0, x)
    };
    let (r, g, b) = (
        ((r1 + m) * 255.0).round() as u8,
        ((g1 + m) * 255.0).round() as u8,
        ((b1 + m) * 255.0).round() as u8,
    );
    format!("#{:02x}{:02x}{:02x}", r, g, b)
}

#[test]
fn every_hue_agrees_with_floating_point() {
    for h in 0..360u32 {
        assert_eq!(color::hsl_to_hex(h, 65, 55), float_hex(h as f32, 0.65, 0.55), "{h}");
    }
}

#[test]
fn hues_go_round() {
    for (s, l) in [(65, 55), (100, 50), (0, 30), (33, 7)] {
        assert_eq!(color::hsl_to_hex(360, s, l), color::hsl_to_hex(0, s, l));
    }
    assert_eq!(color::hsl_to_hex(360, 65, 55), float_hex(360.0, 0.65, 0.55));
}

#[test]
fn extremes_have_no_hue() {
    for h in [0, 59, 180, 359, 360] {
        assert_eq!(color::hsl_to_hex(h, 65, 0), "#000000");
        assert_eq!(color::hsl_to_hex(h, 65, 100), "#ffffff");
        assert_eq!(color::hsl_to_hex(h, 0, 20), "#333333");
    }
}

#[test]
fn names_have_their_colors() {
    for name in ["", "token", "Ann", "\u{e9}\u{1f600}", "a very long name, longer than others"] {
        let mut hash = 0u32;
        for b in name.bytes() {
            hash = hash.wrapping_mul(31).wrapping_add(b as u32);
        }
        let hue = (hash % 360) as f32;
        assert_eq!(color::color_for_username(name), float_hex(hue, 0.65, 0.55));
    }
}

#[test]
fn empty_name_is_red() {
    assert_eq!(color::color_for_username(""), "#d74242");
}

#[test]
fn colors_are_web_colors() {
    for name in ["a", "b", "c", "token"] {
        let c = color::color_for_username(name);
        assert_eq!(c.len(), 7);
        assert!(c.starts_with('#'));
        assert!(c[1..].chars().all(|d| d.is_ascii_hexdigit() && !d.is_ascii_uppercase()));
    }
}
