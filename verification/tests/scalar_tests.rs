use std::cmp::Ordering;

use parquet::data_type::{ByteArray, FixedLenByteArray, Int96};
use parquet::file::statistics::Statistics;
use parquetpeek::{hex_encode, max_from_statistics, min_from_statistics, scalar_max, scalar_min, Scalar};

#[test]
fn numeric_min_is_numeric_not_lexical() {
    // Lexically "10" < "9", numerically 9 < 10 - this locks in that
    // scalar_min compares as the typed value, not as text.
    let a = Scalar::I32(10);
    let b = Scalar::I32(9);
    assert_eq!(scalar_min(a, b), Scalar::I32(9));
}

#[test]
fn numeric_max_is_numeric_not_lexical() {
    let a = Scalar::I32(10);
    let b = Scalar::I32(9);
    assert_eq!(scalar_max(a, b), Scalar::I32(10));
}

#[test]
fn float_min_max_use_partial_ord() {
    assert_eq!(
        scalar_min(Scalar::F64(1.5f64.to_bits()), Scalar::F64((-2.5f64).to_bits())),
        Scalar::F64((-2.5f64).to_bits())
    );
    assert_eq!(
        scalar_max(Scalar::F64(1.5f64.to_bits()), Scalar::F64((-2.5f64).to_bits())),
        Scalar::F64(1.5f64.to_bits())
    );
}

#[test]
fn string_min_max_are_lexical() {
    assert_eq!(
        scalar_min(Scalar::Str("bob".into()), Scalar::Str("alice".into())),
        Scalar::Str("alice".into())
    );
    assert_eq!(
        scalar_max(Scalar::Str("bob".into()), Scalar::Str("alice".into())),
        Scalar::Str("bob".into())
    );
}

#[test]
fn display_formats_each_variant_plainly() {
    assert_eq!(Scalar::Bool(true).display_text(), Some("true".to_string()));
    assert_eq!(Scalar::I64(-7).display_text(), Some("-7".to_string()));
    assert_eq!(Scalar::Str("hi".into()).display_text(), Some("hi".to_string()));
    assert_eq!(Scalar::Bytes(vec![0xde, 0xad]).display_text(), Some("0xdead".to_string()));
}

#[test]
fn display_of_remaining_kinds() {
    assert_eq!(Scalar::Bool(false).display_text(), Some("false".to_string()));
    assert_eq!(Scalar::I32(0).display_text(), Some("0".to_string()));
    assert_eq!(Scalar::I32(i32::MIN).display_text(), Some(i32::MIN.to_string()));
    assert_eq!(Scalar::I64(i64::MIN).display_text(), Some(i64::MIN.to_string()));
    assert_eq!(Scalar::I64(i64::MAX).display_text(), Some(i64::MAX.to_string()));
    assert_eq!(Scalar::I64(1_000_000_007).display_text(), Some("1000000007".to_string()));
    assert_eq!(Scalar::Bytes(vec![]).display_text(), Some("0x".to_string()));
    assert_eq!(Scalar::F32(1.5f32.to_bits()).display_text(), None);
    assert_eq!(Scalar::F64(1.5f64.to_bits()).display_text(), None);
}

#[test]
fn integer_text_matches_std_display() {
    for v in [-1_234_567_890_123i64, -10, -9, -1, 0, 1, 9, 10, 99, 100, 4_294_967_296] {
        assert_eq!(Scalar::I64(v).display_text(), Some(v.to_string()));
    }
}

#[test]
fn hex_encode_two_lowercase_digits_per_byte() {
    assert_eq!(hex_encode(&[]), "");
    assert_eq!(hex_encode(&[0x00, 0x0f, 0xa0, 0xff]), "000fa0ff");
    let all: Vec<u8> = (0..=255u8).collect();
    let expected: String = all.iter().map(|b| format!("{b:02x}")).collect();
    assert_eq!(hex_encode(&all), expected);
}

fn std_float_order(a: f64, b: f64) -> Ordering {
    a.partial_cmp(&b).unwrap_or(Ordering::Equal)
}

#[test]
fn float_order_agrees_with_partial_cmp() {
    let values = [
        f64::NEG_INFINITY, -1e300, -2.5, -1.0, -f64::MIN_POSITIVE, -0.0, 0.0,
        f64::MIN_POSITIVE, 5e-324, 1.0, 1.5, 1e300, f64::INFINITY, f64::NAN,
    ];
    for &a in &values {
        for &b in &values {
            let expected_min = if std_float_order(a, b) == Ordering::Greater { b } else { a };
            let expected_max = if std_float_order(a, b) == Ordering::Less { b } else { a };
            assert_eq!(
                scalar_min(Scalar::F64(a.to_bits()), Scalar::F64(b.to_bits())),
                Scalar::F64(expected_min.to_bits()),
                "min of {a} and {b}"
            );
            assert_eq!(
                scalar_max(Scalar::F64(a.to_bits()), Scalar::F64(b.to_bits())),
                Scalar::F64(expected_max.to_bits()),
                "max of {a} and {b}"
            );
        }
    }
}

#[test]
fn f32_order_agrees_with_partial_cmp() {
    let values = [f32::NEG_INFINITY, -3.5f32, -0.0, 0.0, 1e-45, 2.0, f32::MAX, f32::NAN];
    for &a in &values {
        for &b in &values {
            let ord = a.partial_cmp(&b).unwrap_or(Ordering::Equal);
            let expected_min = if ord == Ordering::Greater { b } else { a };
            assert_eq!(
                scalar_min(Scalar::F32(a.to_bits()), Scalar::F32(b.to_bits())),
                Scalar::F32(expected_min.to_bits())
            );
        }
    }
}

#[test]
fn equal_values_keep_the_running_one() {
    // -0.0 and 0.0 compare equal: the running value (first argument) stays.
    assert_eq!(
        scalar_min(Scalar::F64((-0.0f64).to_bits()), Scalar::F64(0.0f64.to_bits())),
        Scalar::F64((-0.0f64).to_bits())
    );
    assert_eq!(
        scalar_max(Scalar::F64(0.0f64.to_bits()), Scalar::F64((-0.0f64).to_bits())),
        Scalar::F64(0.0f64.to_bits())
    );
}

#[test]
fn mismatched_kinds_compare_equal() {
    assert_eq!(scalar_min(Scalar::I32(5), Scalar::I64(1)), Scalar::I32(5));
    assert_eq!(scalar_max(Scalar::Str("a".into()), Scalar::Bool(true)), Scalar::Str("a".into()));
}

#[test]
fn bool_and_byte_orders() {
    assert_eq!(scalar_min(Scalar::Bool(true), Scalar::Bool(false)), Scalar::Bool(false));
    assert_eq!(scalar_max(Scalar::Bool(false), Scalar::Bool(true)), Scalar::Bool(true));
    assert_eq!(
        scalar_min(Scalar::Bytes(vec![1, 2, 3]), Scalar::Bytes(vec![1, 2])),
        Scalar::Bytes(vec![1, 2])
    );
    assert_eq!(
        scalar_max(Scalar::Bytes(vec![1, 9]), Scalar::Bytes(vec![2])),
        Scalar::Bytes(vec![2])
    );
    assert_eq!(
        scalar_min(Scalar::I64(-5), Scalar::I64(3)),
        Scalar::I64(-5)
    );
}

#[test]
fn strings_order_by_utf8_bytes() {
    // 'é' (U+00E9) sorts after 'z' by code point and by UTF-8 bytes.
    assert_eq!(
        scalar_min(Scalar::Str("é".into()), Scalar::Str("z".into())),
        Scalar::Str("z".into())
    );
    assert_eq!(
        scalar_max(Scalar::Str("ab".into()), Scalar::Str("abc".into())),
        Scalar::Str("abc".into())
    );
}

#[test]
fn statistics_values_decode_by_kind() {
    let s = Statistics::int32(Some(-4), Some(17), None, Some(2), false);
    assert_eq!(min_from_statistics(&s), Some(Scalar::I32(-4)));
    assert_eq!(max_from_statistics(&s), Some(Scalar::I32(17)));

    let s = Statistics::int64(Some(100), Some(300), None, Some(0), false);
    assert_eq!(min_from_statistics(&s), Some(Scalar::I64(100)));
    assert_eq!(max_from_statistics(&s), Some(Scalar::I64(300)));

    let s = Statistics::boolean(Some(false), Some(true), None, None, false);
    assert_eq!(min_from_statistics(&s), Some(Scalar::Bool(false)));
    assert_eq!(max_from_statistics(&s), Some(Scalar::Bool(true)));

    let s = Statistics::float(Some(-1.25), Some(8.0), None, None, false);
    assert_eq!(min_from_statistics(&s), Some(Scalar::F32((-1.25f32).to_bits())));
    assert_eq!(max_from_statistics(&s), Some(Scalar::F32(8.0f32.to_bits())));

    let s = Statistics::double(Some(-3.25), Some(42.125), None, None, false);
    assert_eq!(min_from_statistics(&s), Some(Scalar::F64((-3.25f64).to_bits())));
    assert_eq!(max_from_statistics(&s), Some(Scalar::F64(42.125f64.to_bits())));
}

#[test]
fn byte_array_statistics_decode_as_text_or_bytes() {
    let s = Statistics::byte_array(
        Some(ByteArray::from(vec![b'a', b'l', b'i', b'c', b'e'])),
        Some(ByteArray::from(vec![0xff, 0xfe])),
        None,
        Some(1),
        false,
    );
    assert_eq!(min_from_statistics(&s), Some(Scalar::Str("alice".into())));
    assert_eq!(max_from_statistics(&s), Some(Scalar::Bytes(vec![0xff, 0xfe])));

    let s = Statistics::fixed_len_byte_array(
        Some(FixedLenByteArray::from(ByteArray::from(vec![0xc3, 0xa9]))),
        Some(FixedLenByteArray::from(ByteArray::from(vec![0xc3, 0x28]))),
        None,
        None,
        false,
    );
    assert_eq!(min_from_statistics(&s), Some(Scalar::Str("é".into())));
    assert_eq!(max_from_statistics(&s), Some(Scalar::Bytes(vec![0xc3, 0x28])));
}

#[test]
fn int96_and_missing_statistics_give_nothing() {
    let s = Statistics::int96(Some(Int96::from(vec![1, 2, 3])), Some(Int96::from(vec![4, 5, 6])), None, None, false);
    assert_eq!(min_from_statistics(&s), None);
    assert_eq!(max_from_statistics(&s), None);

    let s = Statistics::int32(None, None, None, Some(3), false);
    assert_eq!(min_from_statistics(&s), None);
    assert_eq!(max_from_statistics(&s), None);
}

#[test]
fn merging_order_does_not_matter_up_to_ties() {
    let vals = [Scalar::I64(4), Scalar::I64(-9), Scalar::I64(12)];
    for a in &vals {
        for b in &vals {
            assert_eq!(scalar_min(a.clone(), b.clone()), scalar_min(b.clone(), a.clone()));
            assert_eq!(scalar_max(a.clone(), b.clone()), scalar_max(b.clone(), a.clone()));
            for c in &vals {
                assert_eq!(
                    scalar_min(scalar_min(a.clone(), b.clone()), c.clone()),
                    scalar_min(a.clone(), scalar_min(b.clone(), c.clone()))
                );
                assert_eq!(
                    scalar_max(scalar_max(a.clone(), b.clone()), c.clone()),
                    scalar_max(a.clone(), scalar_max(b.clone(), c.clone()))
                );
            }
        }
        assert_eq!(scalar_min(a.clone(), a.clone()), a.clone());
        assert_eq!(scalar_max(a.clone(), a.clone()), a.clone());
    }
    // -0.0 and +0.0 tie: each order keeps its first argument
    let neg = Scalar::F64((-0.0f64).to_bits());
    let pos = Scalar::F64(0.0f64.to_bits());
    assert_eq!(scalar_min(neg.clone(), pos.clone()), neg.clone());
    assert_eq!(scalar_min(pos.clone(), neg.clone()), pos);
}

#[test]
fn min_and_max_are_the_two_inputs() {
    let a = Scalar::Str("pear".into());
    let b = Scalar::Str("apple".into());
    assert_eq!(scalar_min(a.clone(), b.clone()), b.clone());
    assert_eq!(scalar_max(a.clone(), b.clone()), a);
}

#[test]
fn hex_text_decodes_back_to_its_bytes() {
    let bytes: Vec<u8> = vec![0x00, 0x7f, 0x80, 0xab, 0xff];
    let text = hex_encode(&bytes);
    let decoded: Vec<u8> = (0..text.len())
        .step_by(2)
        .map(|i| u8::from_str_radix(&text[i..i + 2], 16).unwrap())
        .collect();
    assert_eq!(decoded, bytes);
}

#[test]
fn bounds_of_one_statistics_share_its_kind() {
    let s = Statistics::double(Some(-1.0), Some(2.0), None, None, false);
    assert!(matches!(min_from_statistics(&s), Some(Scalar::F64(_))));
    assert!(matches!(max_from_statistics(&s), Some(Scalar::F64(_))));
    let s = Statistics::int64(Some(1), Some(2), None, None, false);
    assert!(matches!(min_from_statistics(&s), Some(Scalar::I64(_))));
    assert!(matches!(max_from_statistics(&s), Some(Scalar::I64(_))));
}

#[test]
fn displayed_values_parse_back() {
    for v in [i32::MIN, -40, -1, 0, 7, 1234, i32::MAX] {
        let text = Scalar::I32(v).display_text().unwrap();
        assert_eq!(text.parse::<i32>(), Ok(v));
    }
    for v in [i64::MIN, -9_000_000_000, 0, 42, i64::MAX] {
        let text = Scalar::I64(v).display_text().unwrap();
        assert_eq!(text.parse::<i64>(), Ok(v));
    }
    for b in [true, false] {
        assert_eq!(Scalar::Bool(b).display_text().unwrap().parse::<bool>(), Ok(b));
    }
    assert_eq!(Scalar::Str("text".into()).display_text(), Some("text".to_string()));
}

#[test]
fn absent_bound_only_for_int96_or_unrecorded() {
    let s = Statistics::boolean(None, Some(true), None, Some(4), false);
    assert_eq!(min_from_statistics(&s), None);
    assert_eq!(max_from_statistics(&s), Some(Scalar::Bool(true)));
    let s = Statistics::int32(Some(0), Some(0), None, None, false);
    assert_eq!(min_from_statistics(&s), Some(Scalar::I32(0)));
}
