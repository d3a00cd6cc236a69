//! Numbers as bytes, the least significant byte first.

use vstd::prelude::*;

use crate::util::precision::Precision;

verus! {

/// What a byte counts at a place.
pub open spec fn place_value(k: int) -> int {
    if k == 0 {
        1
    } else if k == 1 {
        0x100
    } else if k == 2 {
        0x1_0000
    } else {
        0x100_0000
    }
}

/// A byte of a bit pattern.
pub open spec fn pattern_byte(pattern: u32, k: int) -> u8 {
    (pattern as int / place_value(k) % 0x100) as u8
}

/// The bytes of numbers.
pub open spec fn number_bytes(patterns: Seq<u32>, precision: Precision) -> Seq<u8> {
    Seq::new(
        patterns.len() * precision.width(),
        |i: int| pattern_byte(patterns[i / precision.width() as int], i % precision.width() as int),
    )
}

/// A byte of a list, zero behind its end.
pub open spec fn byte_or_zero(bytes: Seq<u8>, i: int) -> int {
    if i < bytes.len() {
        bytes[i] as int
    } else {
        0
    }
}

/// The bit pattern of the number at a place of a list of bytes.
pub open spec fn number_at(bytes: Seq<u8>, precision: Precision, i: int) -> u32 {
    match precision {
        Precision::FP32 => (byte_or_zero(bytes, 4 * i) + byte_or_zero(bytes, 4 * i + 1) * 0x100
            + byte_or_zero(bytes, 4 * i + 2) * 0x1_0000 + byte_or_zero(bytes, 4 * i + 3)
            * 0x100_0000) as u32,
        Precision::FP16 => (byte_or_zero(bytes, 2 * i) + byte_or_zero(bytes, 2 * i + 1)
            * 0x100) as u32,
    }
}

/// How many numbers a list of bytes holds; the last one may be cut short.
pub open spec fn number_count(len: nat, precision: Precision) -> nat {
    ((len + precision.width() - 1) / precision.width() as int) as nat
}

/// The bit patterns of the numbers of a list of bytes. Where the last one is cut short, zeros take
/// the place of the missing bytes.
pub open spec fn bytes_numbers(bytes: Seq<u8>, precision: Precision) -> Seq<u32> {
    Seq::new(number_count(bytes.len(), precision), |i: int| number_at(bytes, precision, i))
}

/// Every bit pattern fits in the width of a format.
pub open spec fn patterns_fit(patterns: Seq<u32>, precision: Precision) -> bool {
    precision == Precision::FP16 ==> forall|i: int|
        0 <= i < patterns.len() ==> #[trigger] patterns[i] <= 0xffff
}

/// Numbers come back from their bytes.
pub proof fn law_numbers_from_their_bytes(patterns: Seq<u32>, precision: Precision)
    requires
        patterns_fit(patterns, precision),
    ensures
        bytes_numbers(number_bytes(patterns, precision), precision) == patterns,
{
    let bytes = number_bytes(patterns, precision);
    match precision {
        Precision::FP32 => {
            assert(bytes.len() == 4 * patterns.len());
            assert forall|i: int| 0 <= i < patterns.len() implies number_at(
                bytes,
                precision,
                i,
            ) == #[trigger] patterns[i] by {
                assert(bytes[4 * i] == pattern_byte(patterns[i], 0));
                assert(bytes[4 * i + 1] == pattern_byte(patterns[i], 1));
                assert(bytes[4 * i + 2] == pattern_byte(patterns[i], 2));
                assert(bytes[4 * i + 3] == pattern_byte(patterns[i], 3));
            }
        },
        Precision::FP16 => {
            assert(bytes.len() == 2 * patterns.len());
            assert forall|i: int| 0 <= i < patterns.len() implies number_at(
                bytes,
                precision,
                i,
            ) == #[trigger] patterns[i] by {
                assert(bytes[2 * i] == pattern_byte(patterns[i], 0));
                assert(bytes[2 * i + 1] == pattern_byte(patterns[i], 1));
            }
        },
    }
    assert(bytes_numbers(bytes, precision) =~= patterns);
}

/// The bytes of numbers.
pub fn to_bytes(patterns: &[u32], precision: Precision) -> (r: Vec<u8>)
    ensures
        r@ == number_bytes(patterns@, precision),
{
    let mut bytes: Vec<u8> = Vec::new();
    let mut i: usize = 0;
    while i < patterns.len()
        invariant
            i <= patterns@.len(),
            bytes@ == number_bytes(patterns@.take(i as int), precision),
        decreases patterns@.len() - i,
    {
        let x: u32 = patterns[i];
        let ghost before = bytes@;
        bytes.push((x % 0x100) as u8);
        bytes.push((x / 0x100 % 0x100) as u8);
        if precision == Precision::FP32 {
            bytes.push((x / 0x1_0000 % 0x100) as u8);
            bytes.push((x / 0x100_0000 % 0x100) as u8);
        }
        i += 1;
        proof {
            let now = patterns@.take(i as int);
            let width = precision.width() as int;
            assert(bytes@.len() == now.len() * width) by {
                assert(before.len() == (i - 1) * width);
            }
            assert forall|j: int| 0 <= j < bytes@.len() implies #[trigger] bytes@[j]
                == number_bytes(now, precision)[j] by {
                if j < before.len() {
                    assert(bytes@[j] == before[j]);
                    assert(j / width < i - 1);
                    assert(patterns@.take(i - 1)[j / width] == now[j / width]);
                } else {
                    if precision == Precision::FP32 {
                        assert(before.len() == 4 * (i - 1) && bytes@.len() == 4 * i);
                        assert(width == 4 && j / 4 == i - 1);
                    } else {
                        assert(before.len() == 2 * (i - 1) && bytes@.len() == 2 * i);
                        assert(width == 2 && j / 2 == i - 1);
                    }
                    assert(j / width == i - 1);
                    assert(now[i - 1] == x);
                    assert(j - before.len() == j % width);
                }
            }
            assert(bytes@ =~= number_bytes(now, precision));
        }
    }
    assert(patterns@.take(i as int) == patterns@);
    bytes
}

/// A byte of a list, zero behind its end.
fn byte_at(bytes: &[u8], start: usize, k: usize) -> (r: u32)
    requires
        start < bytes@.len(),
    ensures
        r == byte_or_zero(bytes@, start + k),
        r < 0x100,
{
    if k < bytes.len() - start {
        bytes[start + k] as u32
    } else {
        0
    }
}

/// The numbers of a list of bytes.
pub fn from_bytes(bytes: &[u8], precision: Precision) -> (r: Vec<u32>)
    ensures
        r@ == bytes_numbers(bytes@, precision),
{
    let mut numbers: Vec<u32> = Vec::new();
    let width: usize = precision.size_bytes();
    let mut start: usize = 0;
    let ghost mut count: int = 0;
    while start < bytes.len()
        invariant
            width == precision.width(),
            0 <= count,
            start <= bytes@.len(),
            start == bytes@.len() ==> count == number_count(bytes@.len(), precision),
            start < bytes@.len() ==> start == count * width,
            numbers@ == Seq::new(count as nat, |i: int| number_at(bytes@, precision, i)),
            count <= number_count(bytes@.len(), precision),
        decreases bytes@.len() - start,
    {
        let low: u32 = byte_at(bytes, start, 0) + byte_at(bytes, start, 1) * 0x100;
        let number: u32 = if precision == Precision::FP32 {
            low + byte_at(bytes, start, 2) * 0x1_0000 + byte_at(bytes, start, 3) * 0x100_0000
        } else {
            low
        };
        numbers.push(number);
        proof {
            assert(number == number_at(bytes@, precision, count));
            count = count + 1;
            assert(numbers@ =~= Seq::new(count as nat, |i: int| number_at(bytes@, precision, i)));
        }
        if bytes.len() - start > width {
            start += width;
        } else {
            start = bytes.len();
        }
    }
    numbers
}

} // verus!
