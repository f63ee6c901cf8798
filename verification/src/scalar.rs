//! The typed minimum/maximum values that column statistics carry, and the
//! order in which they are compared when statistics are merged.

use std::cmp::Ordering;
use vstd::prelude::*;
use vstd::slice::slice_to_vec;
use vstd::utf8::{decode_utf8, encode_utf8, valid_utf8};
use crate::footer::{
    stats_bytes_present, stats_kind_of, value_fits_kind, stats_max, stats_max_of, stats_min, stats_min_of, StatValue,
    StatValueView, StatsKind,
};
use parquet::file::statistics::Statistics;
use crate::text::{
    decimal_parse, decimal_string, decimal_text, decimal_text_round_trip, hex_encode, hex_parse,
    hex_text, hex_text_round_trip, push_char, utf8_str,
};

verus! {

/// A decoded min/max value from a column chunk's statistics, typed enough
/// to compare correctly: a numeric column's values are compared as numbers,
/// never as text (`"9" > "10"` as text, but `9 < 10`).
///
/// `F32` and `F64` hold the IEEE 754 bit pattern of the floating-point
/// value (what `f32::to_bits` / `f64::to_bits` return).
#[derive(Debug, Clone, PartialEq)]
pub enum Scalar {
    Bool(bool),
    I32(i32),
    I64(i64),
    F32(u32),
    F64(u64),
    Str(String),
    Bytes(Vec<u8>),
}

/// The mathematical value of a [`Scalar`].
pub enum ScalarView {
    Bool(bool),
    I32(i32),
    I64(i64),
    F32(u32),
    F64(u64),
    Str(Seq<char>),
    Bytes(Seq<u8>),
}

impl View for Scalar {
    type V = ScalarView;

    open spec fn view(&self) -> ScalarView {
        match self {
            Scalar::Bool(b) => ScalarView::Bool(*b),
            Scalar::I32(v) => ScalarView::I32(*v),
            Scalar::I64(v) => ScalarView::I64(*v),
            Scalar::F32(v) => ScalarView::F32(*v),
            Scalar::F64(v) => ScalarView::F64(*v),
            Scalar::Str(s) => ScalarView::Str(s@),
            Scalar::Bytes(b) => ScalarView::Bytes(b@),
        }
    }
}

/// The view of an optional scalar.
pub open spec fn opt_scalar_view(o: Option<Scalar>) -> Option<ScalarView> {
    match o {
        Some(s) => Some(s@),
        None => None,
    }
}

// ---------------------------------------------------------------------
// The order of scalars

/// The order of two integers.
pub open spec fn int_order(a: int, b: int) -> Ordering {
    if a < b {
        Ordering::Less
    } else if a == b {
        Ordering::Equal
    } else {
        Ordering::Greater
    }
}

/// `false` sorts before `true`.
pub open spec fn bool_rank(b: bool) -> int {
    if b {
        1
    } else {
        0
    }
}

/// A 32-bit integer on the number line.
pub open spec fn i32_rank(x: i32) -> int {
    x as int
}

/// A 64-bit integer on the number line.
pub open spec fn i64_rank(x: i64) -> int {
    x as int
}

/// Whether a 32-bit IEEE 754 pattern is a NaN: all exponent bits set and a
/// nonzero fraction.
pub open spec fn f32_is_nan(bits: u32) -> bool {
    (bits / 0x80_0000) % 0x100 == 0xff && bits % 0x80_0000 != 0
}

/// Whether a 64-bit IEEE 754 pattern is a NaN.
pub open spec fn f64_is_nan(bits: u64) -> bool {
    (bits / 0x10_0000_0000_0000) % 0x800 == 0x7ff && bits % 0x10_0000_0000_0000 != 0
}

/// The position of a non-NaN 32-bit float on the number line, as an
/// integer: the magnitude bits, negated when the sign bit is set (so that
/// `-0.0` and `+0.0` coincide).
pub open spec fn f32_rank(bits: u32) -> int {
    if bits < 0x8000_0000 {
        bits as int
    } else {
        -((bits - 0x8000_0000) as int)
    }
}

/// The position of a non-NaN 64-bit float on the number line.
pub open spec fn f64_rank(bits: u64) -> int {
    if bits < 0x8000_0000_0000_0000 {
        bits as int
    } else {
        -((bits - 0x8000_0000_0000_0000) as int)
    }
}

/// The partial order of IEEE 754 floats with an unordered pair (a NaN on
/// either side) taken as equal.
pub open spec fn f32_order(a: u32, b: u32) -> Ordering {
    if f32_is_nan(a) || f32_is_nan(b) {
        Ordering::Equal
    } else {
        int_order(f32_rank(a), f32_rank(b))
    }
}

/// See [`f32_order`].
pub open spec fn f64_order(a: u64, b: u64) -> Ordering {
    if f64_is_nan(a) || f64_is_nan(b) {
        Ordering::Equal
    } else {
        int_order(f64_rank(a), f64_rank(b))
    }
}

/// Lexicographic order of byte sequences: the first differing byte
/// decides, and a proper prefix sorts first.
pub open spec fn lex_order(a: Seq<u8>, b: Seq<u8>) -> Ordering
    decreases a.len(),
{
    if a.len() == 0 {
        if b.len() == 0 {
            Ordering::Equal
        } else {
            Ordering::Less
        }
    } else if b.len() == 0 {
        Ordering::Greater
    } else if a[0] < b[0] {
        Ordering::Less
    } else if a[0] > b[0] {
        Ordering::Greater
    } else {
        lex_order(a.drop_first(), b.drop_first())
    }
}

/// The order in which two scalars of the same kind compare: booleans and
/// integers numerically, floats by IEEE 754 (a NaN compares equal to
/// anything), strings by their UTF-8 bytes, byte strings
/// lexicographically. Scalars of different kinds compare equal.
pub open spec fn scalar_order(a: ScalarView, b: ScalarView) -> Ordering {
    match (a, b) {
        (ScalarView::Bool(x), ScalarView::Bool(y)) => int_order(bool_rank(x), bool_rank(y)),
        (ScalarView::I32(x), ScalarView::I32(y)) => int_order(i32_rank(x), i32_rank(y)),
        (ScalarView::I64(x), ScalarView::I64(y)) => int_order(i64_rank(x), i64_rank(y)),
        (ScalarView::F32(x), ScalarView::F32(y)) => f32_order(x, y),
        (ScalarView::F64(x), ScalarView::F64(y)) => f64_order(x, y),
        (ScalarView::Str(x), ScalarView::Str(y)) => lex_order(encode_utf8(x), encode_utf8(y)),
        (ScalarView::Bytes(x), ScalarView::Bytes(y)) => lex_order(x, y),
        _ => Ordering::Equal,
    }
}

/// The smaller of two scalars; the first when they compare equal.
pub open spec fn min_view(a: ScalarView, b: ScalarView) -> ScalarView {
    if scalar_order(a, b) == Ordering::Greater {
        b
    } else {
        a
    }
}

/// The larger of two scalars; the first when they compare equal.
pub open spec fn max_view(a: ScalarView, b: ScalarView) -> ScalarView {
    if scalar_order(a, b) == Ordering::Less {
        b
    } else {
        a
    }
}


fn i64_order(a: i64, b: i64) -> (o: Ordering)
    ensures
        o == int_order(i64_rank(a), i64_rank(b)),
{
    if a < b {
        Ordering::Less
    } else if a == b {
        Ordering::Equal
    } else {
        Ordering::Greater
    }
}

fn i32_order(a: i32, b: i32) -> (o: Ordering)
    ensures
        o == int_order(i32_rank(a), i32_rank(b)),
{
    if a < b {
        Ordering::Less
    } else if a == b {
        Ordering::Equal
    } else {
        Ordering::Greater
    }
}

fn u32_order(a: u32, b: u32) -> (o: Ordering)
    ensures
        o == (if a < b { Ordering::Less } else if a == b { Ordering::Equal } else { Ordering::Greater }),
{
    if a < b {
        Ordering::Less
    } else if a == b {
        Ordering::Equal
    } else {
        Ordering::Greater
    }
}

fn u64_order(a: u64, b: u64) -> (o: Ordering)
    ensures
        o == (if a < b { Ordering::Less } else if a == b { Ordering::Equal } else { Ordering::Greater }),
{
    if a < b {
        Ordering::Less
    } else if a == b {
        Ordering::Equal
    } else {
        Ordering::Greater
    }
}

fn f32_bits_order(a: u32, b: u32) -> (o: Ordering)
    ensures
        o == f32_order(a, b),
{
    let nan_a = (a / 0x80_0000) % 0x100 == 0xff && a % 0x80_0000 != 0;
    let nan_b = (b / 0x80_0000) % 0x100 == 0xff && b % 0x80_0000 != 0;
    if nan_a || nan_b {
        return Ordering::Equal;
    }
    let neg_a = a >= 0x8000_0000;
    let neg_b = b >= 0x8000_0000;
    if !neg_a && !neg_b {
        u32_order(a, b)
    } else if neg_a && neg_b {
        u32_order(b, a)
    } else if !neg_a {
        if a == 0 && b == 0x8000_0000 {
            Ordering::Equal
        } else {
            Ordering::Greater
        }
    } else {
        if a == 0x8000_0000 && b == 0 {
            Ordering::Equal
        } else {
            Ordering::Less
        }
    }
}

fn f64_bits_order(a: u64, b: u64) -> (o: Ordering)
    ensures
        o == f64_order(a, b),
{
    let nan_a = (a / 0x10_0000_0000_0000) % 0x800 == 0x7ff && a % 0x10_0000_0000_0000 != 0;
    let nan_b = (b / 0x10_0000_0000_0000) % 0x800 == 0x7ff && b % 0x10_0000_0000_0000 != 0;
    if nan_a || nan_b {
        return Ordering::Equal;
    }
    let neg_a = a >= 0x8000_0000_0000_0000;
    let neg_b = b >= 0x8000_0000_0000_0000;
    if !neg_a && !neg_b {
        u64_order(a, b)
    } else if neg_a && neg_b {
        u64_order(b, a)
    } else if !neg_a {
        if a == 0 && b == 0x8000_0000_0000_0000 {
            Ordering::Equal
        } else {
            Ordering::Greater
        }
    } else {
        if a == 0x8000_0000_0000_0000 && b == 0 {
            Ordering::Equal
        } else {
            Ordering::Less
        }
    }
}

fn bytes_order(a: &[u8], b: &[u8]) -> (o: Ordering)
    ensures
        o == lex_order(a@, b@),
{
    let mut i: usize = 0;
    let ghost mut k: int = 0;
    assert(a@.skip(0) == a@);
    assert(b@.skip(0) == b@);
    while i < a.len() && i < b.len()
        invariant
            k == i,
            i <= a@.len(),
            i <= b@.len(),
            lex_order(a@, b@) == lex_order(a@.skip(k), b@.skip(k)),
        decreases a@.len() - k,
    {
        assert(a@.skip(k)[0] == a@[k]);
        assert(b@.skip(k)[0] == b@[k]);
        if a[i] < b[i] {
            return Ordering::Less;
        }
        if a[i] > b[i] {
            return Ordering::Greater;
        }
        assert(a@.skip(k).drop_first() == a@.skip(k + 1));
        assert(b@.skip(k).drop_first() == b@.skip(k + 1));
        i = i + 1;
        proof {
            k = k + 1;
        }
    }
    if a.len() == b.len() {
        Ordering::Equal
    } else if i == a.len() {
        Ordering::Less
    } else {
        Ordering::Greater
    }
}

/// Compares two scalars of the (assumed) same kind. Scalars of different
/// kinds would mean one column reported two physical types across row
/// groups, which a Parquet file never does; they compare equal rather than
/// failing.
fn compare(a: &Scalar, b: &Scalar) -> (o: Ordering)
    ensures
        o == scalar_order(a@, b@),
{
    match (a, b) {
        (Scalar::Bool(x), Scalar::Bool(y)) => {
            if *x == *y {
                Ordering::Equal
            } else if *y {
                Ordering::Less
            } else {
                Ordering::Greater
            }
        },
        (Scalar::I32(x), Scalar::I32(y)) => i32_order(*x, *y),
        (Scalar::I64(x), Scalar::I64(y)) => i64_order(*x, *y),
        (Scalar::F32(x), Scalar::F32(y)) => f32_bits_order(*x, *y),
        (Scalar::F64(x), Scalar::F64(y)) => f64_bits_order(*x, *y),
        (Scalar::Str(x), Scalar::Str(y)) => bytes_order(x.as_str().as_bytes(), y.as_str().as_bytes()),
        (Scalar::Bytes(x), Scalar::Bytes(y)) => bytes_order(x.as_slice(), y.as_slice()),
        _ => Ordering::Equal,
    }
}

/// Folds `b` into the running minimum `a`, keeping whichever is smaller
/// (`a` when they compare equal): used to merge one column's statistics
/// across row groups.
pub fn scalar_min(a: Scalar, b: Scalar) -> (r: Scalar)
    ensures
        r@ == min_view(a@, b@),
        r@ == a@ || r@ == b@,
{
    match compare(&a, &b) {
        Ordering::Greater => b,
        _ => a,
    }
}

/// Folds `b` into the running maximum `a`. See [`scalar_min`].
pub fn scalar_max(a: Scalar, b: Scalar) -> (r: Scalar)
    ensures
        r@ == max_view(a@, b@),
        r@ == a@ || r@ == b@,
{
    match compare(&a, &b) {
        Ordering::Less => b,
        _ => a,
    }
}


/// A byte-array statistic decoded as text when its bytes are well-formed
/// UTF-8 (the common case: a string column), and kept as raw bytes
/// otherwise (genuine binary data).
pub open spec fn byte_array_view(bytes: Seq<u8>) -> ScalarView {
    if valid_utf8(bytes) {
        ScalarView::Str(decode_utf8(bytes))
    } else {
        ScalarView::Bytes(bytes)
    }
}

/// Decodes a byte-array statistic as UTF-8 if possible, falling back to
/// raw bytes for binary data.
fn byte_array_scalar(bytes: &[u8]) -> (r: Scalar)
    ensures
        r@ == byte_array_view(bytes@),
{
    match utf8_str(bytes) {
        Some(text) => {
            proof {
                vstd::utf8::encode_utf8_decode_utf8(text@);
            }
            Scalar::Str(text.to_owned())
        },
        None => Scalar::Bytes(slice_to_vec(bytes)),
    }
}

/// Decoding a statistics value keeps it: every value but an `Int96` one
/// decodes to a scalar holding that very value (a byte array to text that
/// encodes back to its bytes, or to the bytes), and only `Int96` values
/// decode to nothing.
pub proof fn decoding_keeps_value(v: StatValueView)
    ensures
        stat_scalar(v) is None <==> v is Int96,
        stat_scalar(v) matches Some(s) ==> holds_same_value(v, s),
        v matches StatValueView::Bytes(b) ==> (stat_scalar(v) matches Some(ScalarView::Str(_)) <==> valid_utf8(b)),
{
    if let StatValueView::Bytes(b) = v {
        byte_array_lossless(b);
    }
}

/// The scalar a statistics value decodes to: the same kind for booleans,
/// integers and floats, text or raw bytes for byte arrays (see
/// [`byte_array_view`]), and nothing for `Int96`, whose 12-byte legacy
/// timestamp encoding has no stable meaning without the column's logical
/// type.
pub open spec fn stat_scalar(v: StatValueView) -> Option<ScalarView> {
    match v {
        StatValueView::Bool(b) => Some(ScalarView::Bool(b)),
        StatValueView::I32(x) => Some(ScalarView::I32(x)),
        StatValueView::I64(x) => Some(ScalarView::I64(x)),
        StatValueView::F32(x) => Some(ScalarView::F32(x)),
        StatValueView::F64(x) => Some(ScalarView::F64(x)),
        StatValueView::Int96 => None,
        StatValueView::Bytes(b) => Some(byte_array_view(b)),
    }
}

/// The scalar an optional statistics value decodes to.
pub open spec fn opt_stat_scalar(v: Option<StatValueView>) -> Option<ScalarView> {
    match v {
        Some(x) => stat_scalar(x),
        None => None,
    }
}

/// Whether a scalar holds the very value a statistics value records: the
/// same boolean, the same integer, the same float bit pattern, or, for a
/// byte array, text whose UTF-8 encoding is those bytes or the bytes
/// themselves.
pub open spec fn holds_same_value(v: StatValueView, s: ScalarView) -> bool {
    match (v, s) {
        (StatValueView::Bool(x), ScalarView::Bool(y)) => x == y,
        (StatValueView::I32(x), ScalarView::I32(y)) => x == y,
        (StatValueView::I64(x), ScalarView::I64(y)) => x == y,
        (StatValueView::F32(x), ScalarView::F32(y)) => x == y,
        (StatValueView::F64(x), ScalarView::F64(y)) => x == y,
        (StatValueView::Bytes(b), ScalarView::Str(t)) => encode_utf8(t) == b,
        (StatValueView::Bytes(b), ScalarView::Bytes(c)) => b == c,
        _ => false,
    }
}

/// Decodes one statistics value into a [`Scalar`] (see [`stat_scalar`]).
pub fn stat_value_scalar(v: StatValue) -> (r: Option<Scalar>)
    ensures
        opt_scalar_view(r) == stat_scalar(v@),
        r is None <==> v is Int96,
        r matches Some(x) ==> holds_same_value(v@, x@),
        v@ matches StatValueView::Bytes(b) ==> (r matches Some(Scalar::Str(_)) <==> valid_utf8(b)),
{
    match v {
        StatValue::Bool(b) => Some(Scalar::Bool(b)),
        StatValue::I32(x) => Some(Scalar::I32(x)),
        StatValue::I64(x) => Some(Scalar::I64(x)),
        StatValue::F32(x) => Some(Scalar::F32(x)),
        StatValue::F64(x) => Some(Scalar::F64(x)),
        StatValue::Int96 => None,
        StatValue::Bytes(b) => {
            proof {
                byte_array_lossless(b@);
            }
            Some(byte_array_scalar(b.as_slice()))
        },
    }
}

/// Whether a scalar is of the kind a column's statistics are: a boolean
/// for `Boolean`, a 32-bit integer for `Int32`, a 64-bit one for `Int64`,
/// 32- and 64-bit floats for `Float` and `Double`, text or bytes for the
/// byte-array kinds; no scalar is of the `Int96` kind.
pub open spec fn scalar_fits_kind(v: ScalarView, k: StatsKind) -> bool {
    match (v, k) {
        (ScalarView::Bool(_), StatsKind::Boolean) => true,
        (ScalarView::I32(_), StatsKind::Int32) => true,
        (ScalarView::I64(_), StatsKind::Int64) => true,
        (ScalarView::F32(_), StatsKind::Float) => true,
        (ScalarView::F64(_), StatsKind::Double) => true,
        (ScalarView::Str(_), StatsKind::ByteArray) => true,
        (ScalarView::Bytes(_), StatsKind::ByteArray) => true,
        (ScalarView::Str(_), StatsKind::FixedLenByteArray) => true,
        (ScalarView::Bytes(_), StatsKind::FixedLenByteArray) => true,
        _ => false,
    }
}

/// Extracts the typed minimum from a column chunk's statistics, if
/// present. `Int96` minimums are deliberately left undecoded. The
/// statistics must hold the bytes of their byte-array bounds (decoded
/// statistics always do).
pub fn min_from_statistics(stats: &Statistics) -> (r: Option<Scalar>)
    requires
        stats_bytes_present(*stats),
    ensures
        opt_scalar_view(r) == opt_stat_scalar(stats_min_of(*stats)),
        r matches Some(x) ==> scalar_fits_kind(x@, stats_kind_of(*stats)),
        stats_min_of(*stats) matches Some(v) ==> value_fits_kind(v, stats_kind_of(*stats)),
        r is None <==> (stats_min_of(*stats) is None || stats_kind_of(*stats) == StatsKind::Int96),
        r matches Some(x) ==> stats_min_of(*stats) matches Some(v) && holds_same_value(v, x@),
{
    match stats_min(stats) {
        Some(v) => stat_value_scalar(v),
        None => None,
    }
}

/// Extracts the typed maximum from a column chunk's statistics. See
/// [`min_from_statistics`].
pub fn max_from_statistics(stats: &Statistics) -> (r: Option<Scalar>)
    requires
        stats_bytes_present(*stats),
    ensures
        opt_scalar_view(r) == opt_stat_scalar(stats_max_of(*stats)),
        r matches Some(x) ==> scalar_fits_kind(x@, stats_kind_of(*stats)),
        stats_max_of(*stats) matches Some(v) ==> value_fits_kind(v, stats_kind_of(*stats)),
        r is None <==> (stats_max_of(*stats) is None || stats_kind_of(*stats) == StatsKind::Int96),
        r matches Some(x) ==> stats_max_of(*stats) matches Some(v) && holds_same_value(v, x@),
{
    match stats_max(stats) {
        Some(v) => stat_value_scalar(v),
        None => None,
    }
}

/// The text of `true` and `false`.
pub open spec fn bool_text(b: bool) -> Seq<char> {
    if b {
        seq!['t', 'r', 'u', 'e']
    } else {
        seq!['f', 'a', 'l', 's', 'e']
    }
}

/// Reads `true` or `false` (as `str::parse::<bool>` does).
pub open spec fn bool_parse(s: Seq<char>) -> Option<bool> {
    if s == bool_text(true) {
        Some(true)
    } else if s == bool_text(false) {
        Some(false)
    } else {
        None
    }
}

/// How a scalar is shown to a reader: booleans as `true`/`false`,
/// integers in base ten, text as itself, raw bytes as `0x` followed by
/// lowercase hexadecimal. Floating-point values have no text here
/// (`None`): their shortest round-trip decimal form is left to the
/// caller's float formatting.
pub open spec fn scalar_text(v: ScalarView) -> Option<Seq<char>> {
    match v {
        ScalarView::Bool(b) => Some(bool_text(b)),
        ScalarView::I32(x) => Some(decimal_text(i32_rank(x))),
        ScalarView::I64(x) => Some(decimal_text(i64_rank(x))),
        ScalarView::F32(_) => None,
        ScalarView::F64(_) => None,
        ScalarView::Str(s) => Some(s),
        ScalarView::Bytes(b) => Some(seq!['0', 'x'] + hex_text(b)),
    }
}

impl Scalar {
    /// The text a reader sees for this value (see [`scalar_text`]);
    /// `None` for the floating-point kinds.
    pub fn display_text(&self) -> (r: Option<String>)
        ensures
            match r {
                Some(s) => scalar_text(self@) == Some(s@),
                None => scalar_text(self@) is None,
            },
    {
        match self {
            Scalar::Bool(b) => {
                let mut s = String::new();
                if *b {
                    push_char(&mut s, 't');
                    push_char(&mut s, 'r');
                    push_char(&mut s, 'u');
                    push_char(&mut s, 'e');
                } else {
                    push_char(&mut s, 'f');
                    push_char(&mut s, 'a');
                    push_char(&mut s, 'l');
                    push_char(&mut s, 's');
                    push_char(&mut s, 'e');
                }
                assert(s@ == bool_text(*b));
                Some(s)
            },
            Scalar::I32(v) => Some(decimal_string(*v as i64)),
            Scalar::I64(v) => Some(decimal_string(*v)),
            Scalar::F32(_) => None,
            Scalar::F64(_) => None,
            Scalar::Str(s) => Some(s.clone()),
            Scalar::Bytes(b) => {
                let mut s = String::new();
                push_char(&mut s, '0');
                push_char(&mut s, 'x');
                let hex = hex_encode(b.as_slice());
                s.append(hex.as_str());
                Some(s)
            },
        }
    }
}


// ---------------------------------------------------------------------
// Laws of the order

/// The order seen from the other side: `Less` and `Greater` swap.
pub open spec fn flipped(o: Ordering) -> Ordering {
    match o {
        Ordering::Less => Ordering::Greater,
        Ordering::Equal => Ordering::Equal,
        Ordering::Greater => Ordering::Less,
    }
}

/// Two scalars the order truly ranks: of one kind, and neither a NaN.
pub open spec fn comparable(a: ScalarView, b: ScalarView) -> bool {
    match (a, b) {
        (ScalarView::Bool(_), ScalarView::Bool(_)) => true,
        (ScalarView::I32(_), ScalarView::I32(_)) => true,
        (ScalarView::I64(_), ScalarView::I64(_)) => true,
        (ScalarView::F32(x), ScalarView::F32(y)) => !f32_is_nan(x) && !f32_is_nan(y),
        (ScalarView::F64(x), ScalarView::F64(y)) => !f64_is_nan(x) && !f64_is_nan(y),
        (ScalarView::Str(_), ScalarView::Str(_)) => true,
        (ScalarView::Bytes(_), ScalarView::Bytes(_)) => true,
        _ => false,
    }
}

proof fn lex_order_flips(a: Seq<u8>, b: Seq<u8>)
    ensures
        lex_order(a, b) == flipped(lex_order(b, a)),
    decreases a.len(),
{
    if a.len() > 0 && b.len() > 0 && a[0] == b[0] {
        lex_order_flips(a.drop_first(), b.drop_first());
    }
}

proof fn lex_order_reflexive(a: Seq<u8>)
    ensures
        lex_order(a, a) == Ordering::Equal,
    decreases a.len(),
{
    if a.len() > 0 {
        lex_order_reflexive(a.drop_first());
    }
}

proof fn lex_order_transitive(a: Seq<u8>, b: Seq<u8>, c: Seq<u8>)
    requires
        lex_order(a, b) != Ordering::Greater,
        lex_order(b, c) != Ordering::Greater,
    ensures
        lex_order(a, c) != Ordering::Greater,
    decreases a.len(),
{
    if a.len() > 0 && b.len() > 0 && c.len() > 0 && a[0] == b[0] && b[0] == c[0] {
        lex_order_transitive(a.drop_first(), b.drop_first(), c.drop_first());
    }
}

/// Comparing the other way round gives the opposite answer, for every
/// pair of scalars (an unordered pair is equal both ways).
pub proof fn order_antisymmetric(a: ScalarView, b: ScalarView)
    ensures
        scalar_order(a, b) == flipped(scalar_order(b, a)),
{
    match (a, b) {
        (ScalarView::Str(x), ScalarView::Str(y)) => lex_order_flips(encode_utf8(x), encode_utf8(y)),
        (ScalarView::Bytes(x), ScalarView::Bytes(y)) => lex_order_flips(x, y),
        _ => {},
    }
}

/// Every scalar compares equal to itself (a NaN compares equal to
/// anything).
pub proof fn order_reflexive(a: ScalarView)
    ensures
        scalar_order(a, a) == Ordering::Equal,
{
    match a {
        ScalarView::Str(x) => lex_order_reflexive(encode_utf8(x)),
        ScalarView::Bytes(x) => lex_order_reflexive(x),
        _ => {},
    }
}

/// `a` is not greater than `b` in the order of scalars.
pub open spec fn at_most(a: ScalarView, b: ScalarView) -> bool {
    scalar_order(a, b) != Ordering::Greater
}

/// `a` is not less than `b` in the order of scalars.
pub open spec fn at_least(a: ScalarView, b: ScalarView) -> bool {
    scalar_order(a, b) != Ordering::Less
}

/// "Not greater than" chains across comparable scalars.
pub proof fn at_most_transitive(a: ScalarView, b: ScalarView, c: ScalarView)
    requires
        comparable(a, b),
        comparable(b, c),
        at_most(a, b),
        at_most(b, c),
    ensures
        at_most(a, c),
{
    match (a, b, c) {
        (ScalarView::Str(x), ScalarView::Str(y), ScalarView::Str(z)) => lex_order_transitive(encode_utf8(x), encode_utf8(y), encode_utf8(z)),
        (ScalarView::Bytes(x), ScalarView::Bytes(y), ScalarView::Bytes(z)) => lex_order_transitive(x, y, z),
        _ => {},
    }
}

/// "Not less than" chains across comparable scalars.
pub proof fn at_least_transitive(a: ScalarView, b: ScalarView, c: ScalarView)
    requires
        comparable(a, b),
        comparable(b, c),
        at_least(a, b),
        at_least(b, c),
    ensures
        at_least(a, c),
{
    order_antisymmetric(a, b);
    order_antisymmetric(b, c);
    order_antisymmetric(a, c);
    at_most_transitive(c, b, a);
}

/// Every scalar is both at most and at least itself.
pub proof fn at_most_reflexive(a: ScalarView)
    ensures
        at_most(a, a),
        at_least(a, a),
{
    order_reflexive(a);
}

/// The merged minimum of two comparable scalars is one of them and is
/// not greater than either; the merged maximum is one of them and is not
/// less than either.
pub proof fn min_max_bound_both(a: ScalarView, b: ScalarView)
    requires
        comparable(a, b),
    ensures
        min_view(a, b) == a || min_view(a, b) == b,
        at_most(min_view(a, b), a),
        at_most(min_view(a, b), b),
        max_view(a, b) == a || max_view(a, b) == b,
        at_least(max_view(a, b), a),
        at_least(max_view(a, b), b),
{
    order_antisymmetric(a, b);
    order_reflexive(a);
    order_reflexive(b);
}

/// Merging two scalars in either order gives results that compare equal
/// (they are the same value unless the two inputs compare equal without
/// being identical, such as `-0.0` and `+0.0`).
pub proof fn min_max_commute(a: ScalarView, b: ScalarView)
    ensures
        scalar_order(min_view(a, b), min_view(b, a)) == Ordering::Equal,
        scalar_order(max_view(a, b), max_view(b, a)) == Ordering::Equal,
        scalar_order(a, b) != Ordering::Equal ==> min_view(a, b) == min_view(b, a) && max_view(a, b) == max_view(b, a),
{
    order_antisymmetric(a, b);
    order_reflexive(a);
    order_reflexive(b);
}

/// Merging a scalar with itself gives it back.
pub proof fn min_max_idempotent(a: ScalarView)
    ensures
        min_view(a, a) == a,
        max_view(a, a) == a,
{
}

/// Merging three comparable scalars in either grouping gives results that
/// compare equal.
pub proof fn min_max_associative(a: ScalarView, b: ScalarView, c: ScalarView)
    requires
        comparable(a, b),
        comparable(b, c),
        comparable(a, c),
    ensures
        scalar_order(min_view(min_view(a, b), c), min_view(a, min_view(b, c))) == Ordering::Equal,
        scalar_order(max_view(max_view(a, b), c), max_view(a, max_view(b, c))) == Ordering::Equal,
{
    order_antisymmetric(a, b);
    order_antisymmetric(b, c);
    order_antisymmetric(a, c);
    order_reflexive(a);
    order_reflexive(b);
    order_reflexive(c);
    let l = min_view(min_view(a, b), c);
    let r = min_view(a, min_view(b, c));
    // both are the least of the three
    min_max_bound_both(a, b);
    min_max_bound_both(b, c);
    min_max_bound_both(min_view(a, b), c);
    min_max_bound_both(a, min_view(b, c));
    assert(at_most(l, a) && at_most(l, b) && at_most(l, c)) by {
        if min_view(a, b) == a {
            at_most_transitive(l, a, b);
        } else {
            at_most_transitive(l, b, a);
        }
    }
    assert(at_most(r, a) && at_most(r, b) && at_most(r, c)) by {
        if min_view(b, c) == b {
            at_most_transitive(r, b, c);
        } else {
            at_most_transitive(r, c, b);
        }
    }
    order_antisymmetric(l, r);
    let ml = max_view(max_view(a, b), c);
    let mr = max_view(a, max_view(b, c));
    min_max_bound_both(max_view(a, b), c);
    min_max_bound_both(a, max_view(b, c));
    assert(at_least(ml, a) && at_least(ml, b) && at_least(ml, c)) by {
        if max_view(a, b) == a {
            at_least_transitive(ml, a, b);
        } else {
            at_least_transitive(ml, b, a);
        }
    }
    assert(at_least(mr, a) && at_least(mr, b) && at_least(mr, c)) by {
        if max_view(b, c) == b {
            at_least_transitive(mr, b, c);
        } else {
            at_least_transitive(mr, c, b);
        }
    }
    order_antisymmetric(ml, mr);
}

/// The merged minimum and maximum of two scalars that do not compare
/// equal are the two inputs, one each; for comparable inputs the minimum
/// is at most the maximum.
pub proof fn min_max_permutation(a: ScalarView, b: ScalarView)
    ensures
        scalar_order(a, b) != Ordering::Equal ==> (min_view(a, b) == a && max_view(a, b) == b) || (min_view(a, b) == b && max_view(a, b) == a),
        comparable(a, b) ==> at_most(min_view(a, b), max_view(a, b)),
{
    order_antisymmetric(a, b);
    order_reflexive(a);
    order_reflexive(b);
}

proof fn lex_order_equal_means_same(a: Seq<u8>, b: Seq<u8>)
    requires
        lex_order(a, b) == Ordering::Equal,
    ensures
        a == b,
    decreases a.len(),
{
    if a.len() > 0 && b.len() > 0 {
        lex_order_equal_means_same(a.drop_first(), b.drop_first());
        assert(a =~= seq![a[0]] + a.drop_first());
        assert(b =~= seq![b[0]] + b.drop_first());
    } else {
        assert(a =~= b);
    }
}

/// Two scalars of one kind that is not a float kind: booleans, integers
/// of one width, text, or bytes.
pub open spec fn exact_kind(a: ScalarView, b: ScalarView) -> bool {
    match (a, b) {
        (ScalarView::Bool(_), ScalarView::Bool(_)) => true,
        (ScalarView::I32(_), ScalarView::I32(_)) => true,
        (ScalarView::I64(_), ScalarView::I64(_)) => true,
        (ScalarView::Str(_), ScalarView::Str(_)) => true,
        (ScalarView::Bytes(_), ScalarView::Bytes(_)) => true,
        _ => false,
    }
}

/// For scalars of one kind other than the float kinds, comparing equal
/// means being the same value. (Floats differ: `-0.0` and `+0.0` compare
/// equal as distinct bit patterns.)
pub proof fn equal_rank_means_identical(a: ScalarView, b: ScalarView)
    requires
        exact_kind(a, b),
        scalar_order(a, b) == Ordering::Equal,
    ensures
        a == b,
{
    match (a, b) {
        (ScalarView::Str(x), ScalarView::Str(y)) => {
            lex_order_equal_means_same(encode_utf8(x), encode_utf8(y));
            vstd::utf8::encode_utf8_decode_utf8(x);
            vstd::utf8::encode_utf8_decode_utf8(y);
        },
        (ScalarView::Bytes(x), ScalarView::Bytes(y)) => lex_order_equal_means_same(x, y),
        _ => {},
    }
}

/// For scalars of one non-float kind, merging in either order gives the
/// same value, and the merged minimum and maximum are the two inputs, one
/// each.
pub proof fn min_max_commute_exact(a: ScalarView, b: ScalarView)
    requires
        exact_kind(a, b),
    ensures
        min_view(a, b) == min_view(b, a),
        max_view(a, b) == max_view(b, a),
        (min_view(a, b) == a && max_view(a, b) == b) || (min_view(a, b) == b && max_view(a, b) == a),
{
    order_antisymmetric(a, b);
    if scalar_order(a, b) == Ordering::Equal {
        equal_rank_means_identical(a, b);
    }
}

/// For scalars of one non-float kind, merging three in either grouping
/// gives the same value.
pub proof fn min_max_associative_exact(a: ScalarView, b: ScalarView, c: ScalarView)
    requires
        exact_kind(a, b),
        exact_kind(b, c),
        exact_kind(a, c),
    ensures
        min_view(min_view(a, b), c) == min_view(a, min_view(b, c)),
        max_view(max_view(a, b), c) == max_view(a, max_view(b, c)),
{
    min_max_associative(a, b, c);
    min_max_bound_both(a, b);
    min_max_bound_both(b, c);
    min_max_bound_both(min_view(a, b), c);
    min_max_bound_both(a, min_view(b, c));
    min_max_bound_both(max_view(a, b), c);
    min_max_bound_both(a, max_view(b, c));
    equal_rank_means_identical(min_view(min_view(a, b), c), min_view(a, min_view(b, c)));
    equal_rank_means_identical(max_view(max_view(a, b), c), max_view(a, max_view(b, c)));
}

/// Two scalars of one kind of statistics are of one kind of scalar, unless
/// the statistics are a byte-array kind (where one bound may decode as text
/// and the other as bytes).
pub proof fn statistics_bounds_share_kind(k: StatsKind, lo: ScalarView, hi: ScalarView)
    requires
        scalar_fits_kind(lo, k),
        scalar_fits_kind(hi, k),
        k != StatsKind::ByteArray,
        k != StatsKind::FixedLenByteArray,
    ensures
        same_kind(lo, hi),
{
}

/// Two scalars of the same kind (variant).
pub open spec fn same_kind(a: ScalarView, b: ScalarView) -> bool {
    match (a, b) {
        (ScalarView::Bool(_), ScalarView::Bool(_)) => true,
        (ScalarView::I32(_), ScalarView::I32(_)) => true,
        (ScalarView::I64(_), ScalarView::I64(_)) => true,
        (ScalarView::F32(_), ScalarView::F32(_)) => true,
        (ScalarView::F64(_), ScalarView::F64(_)) => true,
        (ScalarView::Str(_), ScalarView::Str(_)) => true,
        (ScalarView::Bytes(_), ScalarView::Bytes(_)) => true,
        _ => false,
    }
}

/// Byte-array statistics lose nothing: decoded text encodes back to the
/// very bytes it came from, and bytes that are kept raw are not UTF-8.
pub proof fn byte_array_lossless(bytes: Seq<u8>)
    ensures
        match byte_array_view(bytes) {
            ScalarView::Str(t) => encode_utf8(t) == bytes,
            ScalarView::Bytes(b) => b == bytes && !valid_utf8(bytes),
            _ => false,
        },
{
    if valid_utf8(bytes) {
        vstd::utf8::decode_utf8_encode_utf8(bytes);
    }
}

/// The text a scalar is shown as gives its value back: booleans and
/// integers read back to themselves, text is itself, and the hexadecimal
/// after `0x` reads back to the bytes.
pub proof fn scalar_text_round_trip(v: ScalarView)
    ensures
        match (v, scalar_text(v)) {
            (ScalarView::Bool(b), Some(t)) => bool_parse(t) == Some(b),
            (ScalarView::I32(x), Some(t)) => decimal_parse(t) == i32_rank(x),
            (ScalarView::I64(x), Some(t)) => decimal_parse(t) == i64_rank(x),
            (ScalarView::Str(x), Some(t)) => t == x,
            (ScalarView::Bytes(x), Some(t)) => t.subrange(0, 2) == seq!['0', 'x'] && hex_parse(t.skip(2)) == x,
            (_, None) => true,
            _ => false,
        },
{
    match v {
        ScalarView::Bool(b) => {
            assert(bool_text(true) != bool_text(false)) by {
                assert(bool_text(true).len() != bool_text(false).len());
            }
        },
        ScalarView::I32(x) => decimal_text_round_trip(i32_rank(x)),
        ScalarView::I64(x) => decimal_text_round_trip(i64_rank(x)),
        ScalarView::Bytes(x) => {
            let t = seq!['0', 'x'] + hex_text(x);
            assert(t.subrange(0, 2) =~= seq!['0', 'x']);
            assert(t.skip(2) =~= hex_text(x));
            hex_text_round_trip(x);
        },
        _ => {},
    }
}

/// Booleans and integers are ordered by value: `false` before `true`,
/// and integers numerically (never as text).
pub proof fn order_is_numeric(a: ScalarView, b: ScalarView)
    ensures
        a matches ScalarView::Bool(x) ==> b matches ScalarView::Bool(y) ==> (at_most(a, b) <==> (x ==> y)),
        a matches ScalarView::I32(x) ==> b matches ScalarView::I32(y) ==> (at_most(a, b) <==> x <= y),
        a matches ScalarView::I64(x) ==> b matches ScalarView::I64(y) ==> (at_most(a, b) <==> x <= y),
{
    match (a, b) {
        (ScalarView::Bool(x), ScalarView::Bool(y)) => {
            assert(scalar_order(a, b) == int_order(bool_rank(x), bool_rank(y)));
        },
        (ScalarView::I32(x), ScalarView::I32(y)) => {
            assert(scalar_order(a, b) == int_order(i32_rank(x), i32_rank(y)));
        },
        (ScalarView::I64(x), ScalarView::I64(y)) => {
            assert(scalar_order(a, b) == int_order(i64_rank(x), i64_rank(y)));
        },
        _ => {},
    }
}

} // verus!
