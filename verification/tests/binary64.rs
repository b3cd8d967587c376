use ok_schema::binary64::{whole_signed, whole_unsigned};

fn signed(x: f64) -> Option<i64> {
    if x.fract() == 0.0 {
        Some(x as i64)
    } else {
        None
    }
}

fn unsigned(x: f64) -> Option<u64> {
    if x >= 0.0 && x.fract() == 0.0 {
        Some(x as u64)
    } else {
        None
    }
}

#[test]
fn whole_numbers_are_told_from_the_bits() {
    assert_eq!(whole_signed(0), Some(0));
    assert_eq!(whole_signed(0x8000_0000_0000_0000), Some(0));
    assert_eq!(whole_unsigned(0x8000_0000_0000_0000), Some(0));
    assert_eq!(whole_signed(0x3ff0_0000_0000_0000), Some(1));
    assert_eq!(whole_signed(0xbff0_0000_0000_0000), Some(-1));
    assert_eq!(whole_unsigned(0xbff0_0000_0000_0000), None);
    assert_eq!(whole_signed(0x3ff8_0000_0000_0000), None);
    assert_eq!(whole_signed(0x4008_0000_0000_0000), Some(3));
    assert_eq!(whole_signed(1), None);
    assert_eq!(whole_signed(0x000f_ffff_ffff_ffff), None);
    assert_eq!(whole_signed(0x7ff0_0000_0000_0000), None);
    assert_eq!(whole_signed(0xfff0_0000_0000_0000), None);
    assert_eq!(whole_signed(0x7ff8_0000_0000_0000), None);
    assert_eq!(whole_unsigned(0x7ff0_0000_0000_0000), None);
    assert_eq!(whole_signed(0x43e0_0000_0000_0000), Some(i64::MAX));
    assert_eq!(whole_signed(0xc3e0_0000_0000_0000), Some(i64::MIN));
    assert_eq!(whole_signed(0x43df_ffff_ffff_ffff), Some(9223372036854774784));
    assert_eq!(whole_unsigned(0x43e0_0000_0000_0000), Some(1 << 63));
    assert_eq!(whole_unsigned(0x43ef_ffff_ffff_ffff), Some(18446744073709549568));
    assert_eq!(whole_unsigned(0x43f0_0000_0000_0000), Some(u64::MAX));
    assert_eq!(whole_unsigned(0x7fef_ffff_ffff_ffff), Some(u64::MAX));
    assert_eq!(whole_signed(0x7fef_ffff_ffff_ffff), Some(i64::MAX));
    assert_eq!(whole_signed(0xffef_ffff_ffff_ffff), Some(i64::MIN));
}

#[test]
fn whole_numbers_are_what_the_machine_takes_them_for() {
    let mut state: u64 = 0x2545_f491_4f6c_dd1d;
    let mut checked = 0;
    for round in 0..400_000u64 {
        state ^= state << 13;
        state ^= state >> 7;
        state ^= state << 17;
        let bits = match round % 4 {
            0 => state,
            1 => (state & 0x800f_ffff_ffff_ffff) | ((1000 + (state >> 52) % 120) << 52),
            2 => (state & 0x800f_ffff_0000_0000) | ((1023 + (state >> 52) % 70) << 52),
            _ => (state & 0x8000_0000_0000_0000) | ((1020 + (state >> 40) % 64) << 52)
                | ((state >> 3) & 0x000f_0000_0000_0000),
        };
        let x = f64::from_bits(bits);
        if !x.is_finite() {
            assert_eq!(whole_signed(bits), None);
            assert_eq!(whole_unsigned(bits), None);
            continue;
        }
        assert_eq!(whole_signed(bits), signed(x), "bits {:#x}", bits);
        assert_eq!(whole_unsigned(bits), unsigned(x), "bits {:#x}", bits);
        checked += 1;
    }
    assert!(checked > 300_000);
    for exponent in 0..2047u64 {
        for fraction in [0u64, 1, 0x8_0000_0000_0000, 0xf_ffff_ffff_ffff, 0x4_0000_0000_0000, 0x10_0000] {
            for sign in [0u64, 1] {
                let bits = (sign << 63) | (exponent << 52) | fraction;
                let x = f64::from_bits(bits);
                assert_eq!(whole_signed(bits), signed(x), "bits {:#x}", bits);
                assert_eq!(whole_unsigned(bits), unsigned(x), "bits {:#x}", bits);
            }
        }
    }
}
