//! The integer emulation of double arithmetic must agree bit for bit with
//! the host's hardware doubles, and the channel sorters must behave as the
//! reference application's do (including the preserved ordering bug).

use asefile::fp;
use asefile::hsl;
use asefile::rgba16;

fn b(x: f64) -> u64 {
    x.to_bits()
}

#[test]
fn fp_add_matches_hardware() {
    let vals = [
        0.0f64, 1.0, -1.0, 0.5, 0.25, 0.3, 0.59, 0.11, 255.0, 1.0 / 255.0, 254.0 / 255.0,
        0.123456789, -0.987654321, 1e-12, -1e-12, 1e12, 3.5e-300, 2.0,
    ];
    for &x in vals.iter() {
        for &y in vals.iter() {
            assert_eq!(fp::fadd(b(x), b(y)), b(x + y), "add {} {}", x, y);
            assert_eq!(fp::fsub(b(x), b(y)), b(x - y), "sub {} {}", x, y);
            assert_eq!(fp::fmul(b(x), b(y)), b(x * y), "mul {} {}", x, y);
            if y != 0.0 {
                assert_eq!(fp::fdiv(b(x), b(y)), b(x / y), "div {} {}", x, y);
            }
            assert_eq!(fp::flt(b(x), b(y)), x < y, "lt {} {}", x, y);
            assert_eq!(fp::fle(b(x), b(y)), x <= y, "le {} {}", x, y);
        }
        if x >= 0.0 {
            assert_eq!(fp::fsqrt(b(x)), b(x.sqrt()), "sqrt {}", x);
        }
        assert_eq!(fp::fto_i32(b(x)), x as i32 as i64, "to i32 {}", x);
        assert_eq!(fp::fto_u32(b(x)), x as u32, "to u32 {}", x);
    }
    for c in 0u32..=255 {
        assert_eq!(fp::from_u32(c), b(c as f64));
    }
}

#[test]
fn fp_pipeline_matches_hardware() {
    // every step of the unit-channel pipeline, per channel byte
    for c in 0u32..=255 {
        let unit = fp::fdiv(fp::from_u32(c), 255.0f64.to_bits());
        assert_eq!(unit, b(c as f64 / 255.0));
        let back = fp::fmul(unit, 255.0f64.to_bits());
        assert_eq!(back, b(c as f64 / 255.0 * 255.0));
        assert_eq!(fp::fto_i32(back), (c as f64 / 255.0 * 255.0) as i32 as i64);
        assert_eq!(fp::fsqrt(unit), b((c as f64 / 255.0).sqrt()));
    }
}

#[test]
fn test_static_sort3() {
    // the corrected sorting network agrees with a stable sort on distinct
    // values
    assert_eq!(hsl::static_sort3(b(2.0), b(3.0), b(4.0)), (0, 1, 2));
    assert_eq!(hsl::static_sort3(b(2.0), b(4.0), b(3.0)), (0, 2, 1));
    assert_eq!(hsl::static_sort3(b(3.0), b(2.0), b(4.0)), (1, 0, 2));
    assert_eq!(hsl::static_sort3(b(3.0), b(4.0), b(2.0)), (2, 0, 1));
    assert_eq!(hsl::static_sort3(b(4.0), b(2.0), b(3.0)), (1, 2, 0));
    assert_eq!(hsl::static_sort3(b(4.0), b(3.0), b(2.0)), (2, 1, 0));
}

#[test]
fn static_sort3_orig_matches_on_distinct_values() {
    assert_eq!(hsl::static_sort3_orig(b(2.0), b(3.0), b(4.0)), (0, 1, 2));
    assert_eq!(hsl::static_sort3_orig(b(2.0), b(4.0), b(3.0)), (0, 2, 1));
    assert_eq!(hsl::static_sort3_orig(b(3.0), b(2.0), b(4.0)), (1, 0, 2));
    assert_eq!(hsl::static_sort3_orig(b(3.0), b(4.0), b(2.0)), (2, 0, 1));
    assert_eq!(hsl::static_sort3_orig(b(4.0), b(2.0), b(3.0)), (1, 2, 0));
    assert_eq!(hsl::static_sort3_orig(b(4.0), b(3.0), b(2.0)), (2, 1, 0));
}

#[test]
fn static_sort3_orig_keeps_the_equal_channel_bug() {
    // r == g < b: the ladder names position 1 as both the smallest and the
    // middle channel, and never names position 0.
    assert_eq!(hsl::static_sort3_orig(b(1.0), b(1.0), b(2.0)), (1, 1, 2));
    // all equal: position 0 is never named either
    assert_eq!(hsl::static_sort3_orig(b(1.0), b(1.0), b(1.0)), (2, 1, 2));
}

#[test]
fn scaling() {
    for n in 0u16..=255 {
        assert_eq!(n as u8, rgba16::downscale(rgba16::scale(n as u8)));
    }
}

#[test]
fn downscaling() {
    // The 16-to-8-bit mapping splits the range into equal-sized buckets,
    // except that the first and last buckets share the remainder evenly.
    let mut buckets = vec![0u32; 256];
    let mut n: u32 = 0;
    while n <= 65535 {
        let d = rgba16::downscale(n as u16);
        buckets[d as usize] += 1;
        n += 1;
    }
    assert_eq!(buckets[0], buckets[255]);
    for i in 1..=254usize {
        assert_eq!(buckets[i], 257);
    }
}

#[test]
fn rgba16_pixel_widens_channels() {
    let p = rgba16::rgba16_pixel(0, 1, 128, 255);
    assert_eq!(p.r, 0);
    assert_eq!(p.g, 257);
    assert_eq!(p.b, 128 * 257);
    assert_eq!(p.a, 65535);
}
