use firmware::random::{generate, params_for, Method, Params};

fn is_pow2(b: u8) -> bool {
    b >= 1 && (b & (b - 1)) == 0
}

#[test]
fn params_pick_the_method_by_bound() {
    for b in 1..=255u8 {
        let p = params_for(b);
        match p.method {
            Method::MaskSquareOfTwo => assert!(is_pow2(b), "bound {b}"),
            Method::RemainderBelowLimit(limit) => {
                assert!(!is_pow2(b), "bound {b}");
                assert_eq!(limit, 255 - 255 % b);
            }
        }
    }
}

#[test]
fn power_of_two_bounds_accept_every_byte() {
    for b in [1u8, 2, 4, 8, 16, 32, 64, 128] {
        let p = params_for(b);
        for e in 0..=255u8 {
            let v = generate(&p, e).expect("masking draws always succeed");
            assert!(v < b);
        }
    }
}

#[test]
fn power_of_two_bounds_are_exactly_uniform() {
    for b in [1u8, 2, 4, 8, 16, 32, 64, 128] {
        let p = params_for(b);
        let mut counts = vec![0u32; b as usize];
        for e in 0..=255u8 {
            counts[generate(&p, e).unwrap() as usize] += 1;
        }
        for v in 0..b as usize {
            assert_eq!(counts[v], 256 / b as u32);
        }
    }
}

/// Exhausts all twenty quantity bounds and the six quality bounds against
/// the acceptance and occurrence counts of rejection sampling: draws accept
/// exactly up to the precomputed limit, every accepted value lies below the
/// bound, and across all 256 entropy bytes the value zero occurs once more
/// than every other value.
#[test]
fn rejection_sampling_counts_for_all_device_bounds() {
    for b in 1..=20u8 {
        if is_pow2(b) {
            continue;
        }
        let p = params_for(b);
        let limit = 255 - 255 % b;
        let mut accepted = 0u32;
        let mut counts = vec![0u32; b as usize];
        for e in 0..=255u8 {
            match generate(&p, e) {
                Some(v) => {
                    assert!(v < b);
                    assert!(e <= limit);
                    accepted += 1;
                    counts[v as usize] += 1;
                }
                None => assert!(e > limit),
            }
        }
        assert_eq!(accepted, 256 - (255 % b) as u32, "bound {b}");
        let runs = (255 / b) as u32;
        for v in 0..b as usize {
            let expected = if v == 0 { runs + 1 } else { runs };
            assert_eq!(counts[v], expected, "bound {b} value {v}");
        }
    }
}

#[test]
fn six_sided_die_draws() {
    let p = params_for(6);
    assert_eq!(p, Params { bound: 6, method: Method::RemainderBelowLimit(252) });
    assert_eq!(generate(&p, 2), Some(2));
    assert_eq!(generate(&p, 5), Some(5));
    assert_eq!(generate(&p, 7), Some(1));
    assert_eq!(generate(&p, 253), None);
    assert_eq!(generate(&p, 255), None);
}
