// The perceptual color model itself is floating-point work done by the okhsl
// crate; the library's verified core handles the integer grid, hex codec and
// cache bytes around it. These tests cover the model round trip and the
// end-to-end palette path that combines both.

use okhsl::Okhsl;
use okhsl::Oklab;
use okhsl::Rgb;
use okpalette::hex::parse_hex;
use okpalette::hex::rgb_to_hex;
use okpalette::search::rotation_hue;

fn to_perceptual(rgb: Rgb<u8>) -> Okhsl {
    Okhsl::from(Oklab::from(rgb))
}

fn hue_distance(a: f64, b: f64) -> f64 {
    let d = (a - b).abs();
    d.min(1.0 - d)
}

#[test]
fn perceptual_round_trip_away_from_degenerate_points() {
    // s = 0 and l in {0, 1} leave hue undefined and are excluded.
    for hi in 0..8 {
        let h = f64::from(hi) / 8.0;
        for &s in &[0.5f32, 1.0] {
            for &l in &[0.4f32, 0.6, 0.8] {
                let rgb = Okhsl { h, s, l }.to_srgb();
                let back = to_perceptual(rgb);
                assert!(
                    hue_distance(back.h, h) < 0.02,
                    "hue: {} vs {} (s={} l={})",
                    back.h,
                    h,
                    s,
                    l
                );
                assert!((back.s - s).abs() < 0.02, "sat: {} vs {}", back.s, s);
                assert!((back.l - l).abs() < 0.02, "light: {} vs {}", back.l, l);
            }
        }
    }
}

#[test]
fn palette_of_six_spans_the_hue_circle() {
    // Background 000000, lightness 60, saturation 100, offset 0, count 6:
    // the six hues sit 60 degrees apart starting at 0.
    let mut hexes = Vec::new();
    for n in 0..6u8 {
        let hue = rotation_hue(0, n);
        assert_eq!(hue, 60 * u16::from(n));
        let rgb = Okhsl { h: f64::from(hue) / 360.0, s: 1.0, l: 0.6 }.to_srgb();
        let hex = rgb_to_hex([rgb.r, rgb.g, rgb.b]);
        assert_eq!(parse_hex(&hex), Some((rgb.r, rgb.g, rgb.b)));
        hexes.push(hex);
    }
    assert_eq!(hexes.len(), 6);
    // Distinct hues give distinct colors for this lightness and saturation.
    for i in 0..6 {
        for j in (i + 1)..6 {
            assert_ne!(hexes[i], hexes[j]);
        }
    }
}
