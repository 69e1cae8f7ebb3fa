use chroma::color::ColorValue;
use chroma::color::LinearColor;
use chroma::errors::DegenerateStimulusError;
use chroma::errors::ParseError;
use chroma::roles::Palette;
use chroma::roles::Slot;
use chroma::transfer::to_linear_channel;
use chroma::xyz::chromaticity;
use chroma::xyz::rgb_to_xyz;
use chroma::xyz::xyz_to_rgb;
use chroma::xyz::Tristimulus;

use palette::Srgb;

#[test]
fn from_components_holds_channels() {
    let c = ColorValue::from_components(55, 32, 120);
    assert_eq!((c.r, c.g, c.b), (55, 32, 120));
}

#[test]
fn hex_literal_parses_to_exact_triple() {
    let c = ColorValue::from_text(b"1A1B26").unwrap();
    assert_eq!((c.r, c.g, c.b), (26, 27, 38));
}

#[test]
fn hex_literal_round_trips_through_linear() {
    let c = ColorValue::from_text(b"1A1B26").unwrap();
    let lc = c.to_linear();
    assert_eq!((lc.r, lc.g, lc.b), (10_329, 10_960, 19_382));
    let back = ColorValue::to_gamma(&lc);
    assert!((back.r as i32 - 26).abs() <= 1);
    assert!((back.g as i32 - 27).abs() <= 1);
    assert!((back.b as i32 - 38).abs() <= 1);
    assert_eq!((back.r, back.g, back.b), (26, 27, 38));
}

#[test]
fn hex_literal_accepts_leading_hash() {
    let c = ColorValue::from_text(b"#F7768E").unwrap();
    assert_eq!((c.r, c.g, c.b), (247, 118, 142));
}

#[test]
fn rgb_call_form_parses() {
    let c = ColorValue::from_text(b"rgb(55,32,120)").unwrap();
    assert_eq!((c.r, c.g, c.b), (55, 32, 120));
    let lo = ColorValue::from_text(b"rgb(0,0,0)").unwrap();
    assert_eq!((lo.r, lo.g, lo.b), (0, 0, 0));
    let hi = ColorValue::from_text(b"rgb(255,255,255)").unwrap();
    assert_eq!((hi.r, hi.g, hi.b), (255, 255, 255));
}

#[test]
fn malformed_literals_are_rejected() {
    assert_eq!(ColorValue::from_text(b""), Err(ParseError));
    assert_eq!(ColorValue::from_text(b"12345"), Err(ParseError));
    assert_eq!(ColorValue::from_text(b"12345XY"), Err(ParseError));
    assert_eq!(ColorValue::from_text(b"GGGGGG"), Err(ParseError));
    assert_eq!(ColorValue::from_text(b"rgb(256,0,0)"), Err(ParseError));
    assert_eq!(ColorValue::from_text(b"rgb(1,2)"), Err(ParseError));
    assert_eq!(ColorValue::from_text(b"rgb(1,2,3,4)"), Err(ParseError));
    assert_eq!(ColorValue::from_text(b"rgb(1,2,3"), Err(ParseError));
}

#[test]
fn round_trip_holds_for_every_code() {
    for g in 0..=255u8 {
        let c = ColorValue::from_components(g, g, g);
        let back = ColorValue::to_gamma(&c.to_linear());
        assert_eq!((back.r, back.g, back.b), (g, g, g));
    }
}

#[test]
fn transfer_is_strictly_monotone() {
    let mut prev = to_linear_channel(0);
    assert_eq!(prev, 0);
    for g in 1..=255u8 {
        let cur = to_linear_channel(g);
        assert!(cur > prev);
        prev = cur;
    }
    assert_eq!(prev, 1_000_000);
}

#[test]
fn breakpoint_matches_both_branches() {
    // At the breakpoint code (raw 10, normalized just under 0.04045)
    // both branches of the transfer function agree with the library
    // value to well within 1e-5.
    let ours = to_linear_channel(10) as f64 / 1e6;
    let c = 10.0f64 / 255.0;
    let linear_branch = c / 12.92;
    let power_branch = ((c + 0.055) / 1.055).powf(2.4);
    assert!((ours - linear_branch).abs() < 1e-5);
    assert!((ours - power_branch).abs() < 1e-5);
}

#[test]
fn transfer_matches_reference_curve() {
    // The fixed-point curve against the sRGB transfer function
    // computed by the palette crate in floating point.
    for g in 0..=255u8 {
        let ours = to_linear_channel(g) as f64 / 1e6;
        let reference: palette::LinSrgb<f32> = Srgb::new(g, g, g).into_linear();
        assert!((ours - reference.red as f64).abs() < 1e-5);
    }
}

#[test]
fn mixing_commutes_and_associates() {
    let a = ColorValue::from_components(55, 32, 120).to_linear();
    let b = ColorValue::from_components(200, 10, 0).to_linear();
    let c = ColorValue::from_components(1, 2, 3).to_linear();
    assert_eq!(a.mix(&b), b.mix(&a));
    assert_eq!(a.mix(&b).mix(&c), a.mix(&b.mix(&c)));
}

#[test]
fn mixing_adds_linear_channels() {
    let a = ColorValue::from_components(55, 32, 120).to_linear();
    let b = ColorValue::from_components(32, 55, 0).to_linear();
    let m = a.mix(&b);
    assert_eq!(m.r, 38_204 + 14_443);
    assert_eq!(m.r, m.g);
    assert_eq!(m.b, 187_819);
}

#[test]
fn xyz_conversion_matches_matrix() {
    let lc = ColorValue::from_components(55, 32, 120).to_linear();
    assert_eq!((lc.r, lc.g, lc.b), (38_204, 14_443, 187_819));
    let t = rgb_to_xyz(&lc);
    assert_eq!((t.x, t.y, t.z), (54_811, 32_009, 180_945));
    let back = xyz_to_rgb(&t);
    assert!((back.r - lc.r).abs() <= 2);
    assert!((back.g - lc.g).abs() <= 2);
    assert!((back.b - lc.b).abs() <= 2);
}

#[test]
fn chromaticity_is_normalized() {
    let lc = ColorValue::from_components(55, 32, 120).to_linear();
    let t = rgb_to_xyz(&lc);
    let c = chromaticity(&t).unwrap();
    assert_eq!((c.x, c.y), (204_698, 119_541));
    for r in [0u8, 5, 55, 128, 255] {
        for g in [0u8, 31, 100, 255] {
            let lc = ColorValue::from_components(r, g, 77).to_linear();
            let c = chromaticity(&rgb_to_xyz(&lc)).unwrap();
            assert!(0 <= c.x && c.x <= 1_000_000);
            assert!(0 <= c.y && c.y <= 1_000_000);
            assert!(c.x + c.y <= 1_000_000);
        }
    }
}

#[test]
fn chromaticity_of_black_is_degenerate() {
    let t = Tristimulus { x: 0, y: 0, z: 0 };
    assert_eq!(chromaticity(&t), Err(DegenerateStimulusError));
}

#[test]
fn out_of_gamut_values_clamp_on_encoding() {
    let lc = LinearColor { r: -5_000, g: 2_000_000, b: 500_000 };
    let c = ColorValue::to_gamma(&lc);
    assert_eq!((c.r, c.g, c.b), (0, 255, 188));
}

#[test]
fn rendering_decimal_form() {
    let c = ColorValue::from_components(26, 27, 38);
    assert_eq!(c.rgb_text(), b"RGB(26, 27, 38)".to_vec());
}

#[test]
fn rendering_debug_form_reports_linear_triple() {
    let c = ColorValue::from_components(26, 27, 38);
    let expected = b"RGB(26, 27, 38)\nRGB_VEC(0.010329, 0.010960, 0.019382)".to_vec();
    assert_eq!(c.debug_text(), expected);
}

#[test]
fn palette_seeds_fully_converted() {
    let base = ColorValue::from_text(b"1A1B26").unwrap();
    let accent = ColorValue::from_text(b"F7768E").unwrap();
    let background = ColorValue::from_text(b"16161E").unwrap();
    let foreground = ColorValue::from_text(b"C0CAF5").unwrap();
    let p = Palette::seed(&base, &accent, &background, &foreground);
    assert_eq!(p.base.0, base.to_linear());
    assert_eq!(p.accent.0, accent.to_linear());
    assert_eq!(p.background, background.to_linear());
    assert_eq!(p.foreground, foreground.to_linear());
    assert!(p.base.1.is_empty());
    assert!(p.accent.1.is_empty());
}

#[test]
fn palette_variants_keep_order() {
    let seed = ColorValue::from_components(0, 0, 0);
    let mut p = Palette::seed(&seed, &seed, &seed, &seed);
    let v1 = ColorValue::from_components(10, 20, 30);
    let v2 = ColorValue::from_components(40, 50, 60);
    let v3 = ColorValue::from_components(70, 80, 90);
    p.add_variant(Slot::Base, &v1);
    p.add_variant(Slot::Base, &v2);
    p.add_variant(Slot::Accent, &v3);
    assert_eq!(p.base.1, vec![v1.to_linear(), v2.to_linear()]);
    assert_eq!(p.accent.1, vec![v3.to_linear()]);
}
