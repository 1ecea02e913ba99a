use pitch_detection::utils::filters::closes_bin;
use pitch_detection::utils::filters::comb_filter;
use pitch_detection::utils::filters::fill;
use pitch_detection::utils::filters::fill_comb_mask;
use pitch_detection::utils::filters::hz_to_steps;
use pitch_detection::utils::filters::CombElements;
use pitch_detection::utils::filters::BIN_STEPS;

fn all_elements() -> CombElements {
    CombElements { fundamental: true, harmonics: true, edges: true }
}

fn closed_bins(gains: &[f64]) -> Vec<usize> {
    let mut closed = Vec::new();
    for (i, g) in gains.iter().enumerate() {
        if *g == 0.0 {
            closed.push(i);
        }
    }
    closed
}

#[test]
fn grid_has_256_steps_per_bin() {
    assert_eq!(BIN_STEPS, 256);
}

#[test]
fn fundamental_closes_the_bins_within_the_half_width() {
    let only = CombElements { fundamental: true, harmonics: false, edges: false };
    // centre at bin 10, half a bin to each side
    let center = 10 * 256;
    assert!(closes_bin(10, 64, center, 128, only));
    assert!(!closes_bin(9, 64, center, 128, only));
    assert!(!closes_bin(11, 64, center, 128, only));
    // one bin to each side, boundary included
    assert!(closes_bin(9, 64, center, 256, only));
    assert!(closes_bin(11, 64, center, 256, only));
    assert!(!closes_bin(8, 64, center, 256, only));
    assert!(!closes_bin(12, 64, center, 255 + 256, only));
    assert!(closes_bin(12, 64, center, 512, only));
    // harmonics are off
    assert!(!closes_bin(20, 64, center, 128, only));
}

#[test]
fn mirrored_bins_are_closed_alike() {
    let only = CombElements { fundamental: true, harmonics: false, edges: false };
    let center = 10 * 256;
    assert!(closes_bin(54, 64, center, 128, only));
    assert!(!closes_bin(53, 64, center, 128, only));
    assert!(!closes_bin(55, 64, center, 128, only));
}

#[test]
fn harmonics_close_the_multiples_from_the_second_on() {
    let only = CombElements { fundamental: false, harmonics: true, edges: false };
    let center = 10 * 256;
    assert!(!closes_bin(10, 64, center, 128, only));
    assert!(closes_bin(20, 64, center, 128, only));
    assert!(closes_bin(30, 64, center, 128, only));
    assert!(!closes_bin(25, 64, center, 128, only));
    assert!(!closes_bin(19, 64, center, 128, only));
    assert!(closes_bin(19, 64, center, 256, only));
    assert!(closes_bin(21, 64, center, 256, only));
    // below the second harmonic only the second can be near
    assert!(closes_bin(15, 64, center, 5 * 256, only));
    assert!(!closes_bin(14, 64, center, 5 * 256, only));
}

#[test]
fn harmonics_of_a_centre_between_bins() {
    let only = CombElements { fundamental: false, harmonics: true, edges: false };
    // centre at bin 10.5: harmonics at 21, 31.5, 42, ...
    let center = 10 * 256 + 128;
    assert!(closes_bin(21, 128, center, 0, only));
    assert!(!closes_bin(31, 128, center, 127, only));
    assert!(closes_bin(31, 128, center, 128, only));
    assert!(closes_bin(32, 128, center, 128, only));
    assert!(closes_bin(42, 128, center, 0, only));
    assert!(!closes_bin(43, 128, center, 255, only));
}

#[test]
fn a_centre_of_zero_closes_only_near_bin_zero() {
    let only = CombElements { fundamental: false, harmonics: true, edges: false };
    assert!(closes_bin(0, 16, 0, 0, only));
    assert!(!closes_bin(1, 16, 0, 255, only));
    assert!(closes_bin(1, 16, 0, 256, only));
    assert!(closes_bin(15, 16, 0, 256, only));
    assert!(!closes_bin(2, 16, 0, 256, only));
}

#[test]
fn edges_close_bin_zero_and_the_nyquist_bin() {
    let only = CombElements { fundamental: false, harmonics: false, edges: true };
    assert!(closes_bin(0, 8, 1000, 0, only));
    assert!(closes_bin(4, 8, 1000, 0, only));
    assert!(!closes_bin(3, 8, 1000, 0, only));
    assert!(!closes_bin(5, 8, 1000, 0, only));
    // an odd size has no Nyquist bin
    assert!(closes_bin(0, 7, 1000, 0, only));
    assert!(!closes_bin(3, 7, 1000, 0, only));
    assert!(!closes_bin(4, 7, 1000, 0, only));
}

#[test]
fn nothing_switched_on_closes_nothing() {
    let none = CombElements { fundamental: false, harmonics: false, edges: false };
    for i in 0..16 {
        assert!(!closes_bin(i, 16, 256, 1 << 40, none));
    }
}

#[test]
fn extreme_values_do_not_overflow() {
    let n = usize::MAX;
    assert!(closes_bin(0, n, u64::MAX, u64::MAX, all_elements()));
    assert!(!closes_bin(n / 2, n, u64::MAX, 0, CombElements {
        fundamental: true,
        harmonics: true,
        edges: false,
    }));
    assert!(closes_bin(n - 1, n, 1, 0, all_elements()));
}

#[test]
fn mask_of_a_comb_filter() {
    let mut gains: Vec<f64> = vec![0.5; 32];
    fill_comb_mask(&mut gains, 5 * 256, 256, all_elements(), 0.0, 1.0);
    // edges 0 and 16; fundamental 4..=6; harmonics 9..=11 and 14..=16; mirrored
    let expected: Vec<usize> =
        vec![0, 4, 5, 6, 9, 10, 11, 14, 15, 16, 17, 18, 21, 22, 23, 26, 27, 28];
    assert_eq!(closed_bins(&gains), expected);
    for g in gains.iter() {
        assert!(*g == 0.0 || *g == 1.0);
    }
}

#[test]
fn mask_uses_the_two_values_given() {
    let mut gains: Vec<f64> = vec![0.5; 8];
    let only = CombElements { fundamental: true, harmonics: false, edges: false };
    fill_comb_mask(&mut gains, 2 * 256, 0, only, 0.25, 0.75);
    assert_eq!(gains, vec![0.75, 0.75, 0.25, 0.75, 0.75, 0.75, 0.25, 0.75]);
}

#[test]
fn mask_is_symmetric() {
    let mut gains: Vec<f64> = vec![0.5; 101];
    fill_comb_mask(&mut gains, 7 * 256 + 100, 300, all_elements(), 0.0, 1.0);
    for i in 1..101 {
        assert_eq!(gains[i], gains[101 - i]);
    }
}

#[test]
fn fill_writes_every_entry() {
    let mut buffer: Vec<f64> = vec![1.0, 2.0, 3.0];
    fill(&mut buffer, 4.5);
    assert_eq!(buffer, vec![4.5, 4.5, 4.5]);
}

#[test]
fn hertz_to_grid_steps() {
    // 100 Hz at 1000 Hz over 1000 bins is bin 100
    assert_eq!(hz_to_steps(100.0f64, 1000, 1000), Some(25600));
    // 441 Hz at 44100 Hz over 4096 bins is bin 40.96
    assert_eq!(hz_to_steps(441.0f64, 4096, 44100), Some(10485));
    assert_eq!(hz_to_steps(50.0f64, 4096, 44100), Some(1188));
    assert_eq!(hz_to_steps(0.0f64, 4096, 44100), Some(0));
    assert_eq!(hz_to_steps(100.0f32, 1000, 1000), Some(25600));
}

#[test]
fn hertz_without_a_grid_position() {
    assert_eq!(hz_to_steps(-5.0f64, 1000, 1000), None);
    assert_eq!(hz_to_steps(f64::NAN, 1000, 1000), None);
    assert_eq!(hz_to_steps(f64::INFINITY, 1000, 1000), None);
    assert_eq!(hz_to_steps(100.0f64, 1000, 0), None);
    assert_eq!(hz_to_steps(1.0e300f64, 1000, 1), None);
}

#[test]
fn comb_filter_closes_the_pitch_and_its_harmonics() {
    let mut gains: Vec<f64> = vec![0.5; 1000];
    // bin width 1 Hz; notches 4 Hz wide around 100 Hz and its multiples
    comb_filter(100.0, 4.0, 1000, 1000, &mut gains, all_elements());
    let closed = closed_bins(&gains);
    let mut expected: Vec<usize> = vec![0];
    for k in 1..=5 {
        for i in (100 * k - 2)..=(100 * k + 2) {
            expected.push(i);
        }
    }
    for k in (1..5).rev() {
        for i in (1000 - 100 * k - 2)..=(1000 - 100 * k + 2) {
            expected.push(i);
        }
    }
    expected.sort();
    expected.dedup();
    assert_eq!(closed, expected);
}

#[test]
fn comb_filter_gains_lie_between_zero_and_one() {
    let mut gains: Vec<f64> = vec![0.5; 4096];
    for f in [0.0, 27.5, 220.0, 440.0, 4186.0, 22050.0, 1.0e9] {
        for beta in [0.001, 1.0, 50.0, 5000.0] {
            comb_filter(f, beta, 4096, 44100, &mut gains, all_elements());
            for g in gains.iter() {
                assert!(0.0 <= *g && *g <= 1.0);
            }
        }
    }
    let mut single: Vec<f32> = vec![0.5; 512];
    comb_filter(440.0f32, 50.0f32, 512, 8000, &mut single, all_elements());
    for g in single.iter() {
        assert!(0.0 <= *g && *g <= 1.0);
    }
}

#[test]
fn comb_filter_lets_all_pass_without_a_grid_position() {
    let mut gains: Vec<f64> = vec![0.5; 16];
    comb_filter(-440.0, 50.0, 16, 44100, &mut gains, all_elements());
    assert_eq!(gains, vec![1.0; 16]);
    comb_filter(f64::NAN, 50.0, 16, 44100, &mut gains, all_elements());
    assert_eq!(gains, vec![1.0; 16]);
    comb_filter(440.0, 50.0, 16, 0, &mut gains, all_elements());
    assert_eq!(gains, vec![1.0; 16]);
}
