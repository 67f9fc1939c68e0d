//! A guard before the reading of numbers: it finds the fractions that count
//! too many digits.
//!
//! The reader of numbers keeps the digits of a number in sixty-four bits
//! and the power of ten of its fraction in sixteen. It takes a digit of the
//! fraction into the number as long as the number still fits, and lowers the
//! power by one each time. A number that begins with any other digit than
//! zero is full after twenty digits. Only a number that is written `0.000…`
//! stays small enough to take in digit after digit, and so to lower the
//! power further than sixteen bits reach. The guard walks the bytes once,
//! leaves string literals aside, and counts for each such fraction the
//! digits that are taken in.

use vstd::prelude::*;

verus! {

/// How many digits of one fraction may be taken in.
pub const MAX_FRACTION_DIGITS: usize = 32768;

/// Where in a text the guard stands.
#[derive(Clone, Copy, Debug, PartialEq, Eq, Structural)]
pub enum ScanPart {
    /// Outside a string, and not in digits.
    Plain,
    /// In digits that are all zero.
    ZeroDigits,
    /// In digits of which one is not zero.
    OtherDigits,
    /// Behind the point that follows digits that are all zero.
    Fraction,
    /// In a string literal.
    InString,
    /// In a string literal, behind a backslash.
    Escaped,
}

/// What the guard knows after some bytes: where it stands and, in a
/// fraction, how many of its digits were taken in and what number they make.
#[derive(Clone, Copy, Debug, PartialEq, Eq, Structural)]
pub struct FractionScan {
    pub part: ScanPart,
    pub counted: usize,
    pub mantissa: u64,
}

/// Whether `byte` is one of the ten decimal digits.
pub open spec fn is_digit(byte: u8) -> bool {
    48 <= byte <= 57
}

/// Whether `byte` is the digit zero.
pub open spec fn is_zero_digit(byte: u8) -> bool {
    byte == 48
}

/// Whether `byte` is the point of a fraction.
pub open spec fn is_point(byte: u8) -> bool {
    byte == 46
}

/// Whether `byte` is the quotation mark, which begins and ends a string.
pub open spec fn is_quote(byte: u8) -> bool {
    byte == 34
}

/// Whether `byte` is the backslash, which takes the next byte of a string
/// out of the reckoning.
pub open spec fn is_backslash(byte: u8) -> bool {
    byte == 92
}

/// One more than `count`, as far as a `usize` counts.
pub open spec fn one_more(count: usize) -> usize {
    if count < usize::MAX {
        (count + 1) as usize
    } else {
        count
    }
}

/// A scan that stands at `part` and is in no fraction.
pub open spec fn at_part(part: ScanPart) -> FractionScan {
    FractionScan { part, counted: 0, mantissa: 0 }
}

/// The scan before the first byte.
pub open spec fn scan_start() -> FractionScan {
    at_part(ScanPart::Plain)
}

/// The scan behind one more digit of a fraction: the digit is taken in, and
/// counted, if the number with it still fits sixty-four bits.
pub open spec fn fraction_step(scan: FractionScan, digit: u8) -> FractionScan {
    if scan.mantissa * 10 + (digit - 48) <= u64::MAX {
        FractionScan {
            part: ScanPart::Fraction,
            counted: one_more(scan.counted),
            mantissa: (scan.mantissa * 10 + (digit - 48)) as u64,
        }
    } else {
        scan
    }
}

/// The scan behind `byte`, for the scan before it.
pub open spec fn scan_step(scan: FractionScan, byte: u8) -> FractionScan {
    match scan.part {
        ScanPart::InString => if is_backslash(byte) {
            at_part(ScanPart::Escaped)
        } else if is_quote(byte) {
            at_part(ScanPart::Plain)
        } else {
            at_part(ScanPart::InString)
        },
        ScanPart::Escaped => at_part(ScanPart::InString),
        ScanPart::Fraction => if is_digit(byte) {
            fraction_step(scan, byte)
        } else if is_quote(byte) {
            at_part(ScanPart::InString)
        } else {
            at_part(ScanPart::Plain)
        },
        ScanPart::OtherDigits => if is_digit(byte) {
            at_part(ScanPart::OtherDigits)
        } else if is_quote(byte) {
            at_part(ScanPart::InString)
        } else {
            at_part(ScanPart::Plain)
        },
        ScanPart::ZeroDigits => if is_zero_digit(byte) {
            at_part(ScanPart::ZeroDigits)
        } else if is_digit(byte) {
            at_part(ScanPart::OtherDigits)
        } else if is_point(byte) {
            at_part(ScanPart::Fraction)
        } else if is_quote(byte) {
            at_part(ScanPart::InString)
        } else {
            at_part(ScanPart::Plain)
        },
        ScanPart::Plain => if is_zero_digit(byte) {
            at_part(ScanPart::ZeroDigits)
        } else if is_digit(byte) {
            at_part(ScanPart::OtherDigits)
        } else if is_quote(byte) {
            at_part(ScanPart::InString)
        } else {
            at_part(ScanPart::Plain)
        },
    }
}

/// The scan behind the first `upto` bytes.
pub open spec fn scan_upto(bytes: Seq<u8>, upto: int) -> FractionScan
    decreases upto,
{
    if upto <= 0 {
        scan_start()
    } else {
        scan_step(scan_upto(bytes, upto - 1), bytes[upto - 1])
    }
}

/// Whether no fraction in `bytes` takes in more than `MAX_FRACTION_DIGITS`
/// digits.
pub open spec fn fractions_fit(bytes: Seq<u8>) -> bool {
    forall|upto: int|
        0 <= upto <= bytes.len() ==> (#[trigger] scan_upto(bytes, upto)).counted
            <= MAX_FRACTION_DIGITS
}

/// The scan behind `byte`, for a scan that has not counted too far.
pub fn step(scan: FractionScan, byte: u8) -> (next: FractionScan)
    requires
        scan.counted <= MAX_FRACTION_DIGITS,
    ensures
        next == scan_step(scan, byte),
{
    let is_digit = 48 <= byte && byte <= 57;
    let part = match scan.part {
        ScanPart::InString => {
            if byte == 92 {
                ScanPart::Escaped
            } else if byte == 34 {
                ScanPart::Plain
            } else {
                ScanPart::InString
            }
        },
        ScanPart::Escaped => ScanPart::InString,
        ScanPart::Fraction => {
            if is_digit {
                let taken = match scan.mantissa.checked_mul(10) {
                    Some(tenfold) => tenfold.checked_add((byte - 48) as u64),
                    None => None,
                };
                return match taken {
                    Some(mantissa) => FractionScan {
                        part: ScanPart::Fraction,
                        counted: scan.counted + 1,
                        mantissa,
                    },
                    None => scan,
                };
            } else if byte == 34 {
                ScanPart::InString
            } else {
                ScanPart::Plain
            }
        },
        ScanPart::OtherDigits => {
            if is_digit {
                ScanPart::OtherDigits
            } else if byte == 34 {
                ScanPart::InString
            } else {
                ScanPart::Plain
            }
        },
        ScanPart::ZeroDigits => {
            if byte == 48 {
                ScanPart::ZeroDigits
            } else if is_digit {
                ScanPart::OtherDigits
            } else if byte == 46 {
                ScanPart::Fraction
            } else if byte == 34 {
                ScanPart::InString
            } else {
                ScanPart::Plain
            }
        },
        ScanPart::Plain => {
            if byte == 48 {
                ScanPart::ZeroDigits
            } else if is_digit {
                ScanPart::OtherDigits
            } else if byte == 34 {
                ScanPart::InString
            } else {
                ScanPart::Plain
            }
        },
    };
    FractionScan { part, counted: 0, mantissa: 0 }
}

/// Whether no fraction in `bytes` takes in too many digits.
pub fn has_short_fractions(bytes: &[u8]) -> (fits: bool)
    ensures
        fits == fractions_fit(bytes@),
{
    let mut scan = FractionScan { part: ScanPart::Plain, counted: 0, mantissa: 0 };
    let mut i: usize = 0;
    while i < bytes.len()
        invariant
            i <= bytes.len(),
            scan == scan_upto(bytes@, i as int),
            forall|upto: int|
                0 <= upto <= i ==> (#[trigger] scan_upto(bytes@, upto)).counted
                    <= MAX_FRACTION_DIGITS,
        decreases bytes.len() - i,
    {
        scan = step(scan, bytes[i]);
        i = i + 1;
        assert(scan == scan_upto(bytes@, i as int));
        if scan.counted > MAX_FRACTION_DIGITS {
            return false;
        }
    }
    true
}

proof fn lemma_counted_is_bounded(bytes: Seq<u8>, upto: int)
    requires
        0 <= upto <= bytes.len(),
    ensures
        scan_upto(bytes, upto).counted <= upto,
        scan_upto(bytes, upto).part != ScanPart::Fraction ==> scan_upto(bytes, upto).counted == 0,
    decreases upto,
{
    if upto > 0 {
        lemma_counted_is_bounded(bytes, upto - 1);
    }
}

/// A text of no more bytes than the digits that a fraction may take in is
/// never refused.
pub proof fn lemma_short_texts_fit(bytes: Seq<u8>)
    requires
        bytes.len() <= MAX_FRACTION_DIGITS,
    ensures
        fractions_fit(bytes),
{
    assert forall|upto: int| 0 <= upto <= bytes.len() implies (#[trigger] scan_upto(
        bytes,
        upto,
    )).counted <= MAX_FRACTION_DIGITS by {
        lemma_counted_is_bounded(bytes, upto);
    }
}

/// A text without a point is never refused, however many digits it holds.
pub proof fn lemma_texts_without_a_point_fit(bytes: Seq<u8>)
    requires
        forall|i: int| 0 <= i < bytes.len() ==> !is_point(#[trigger] bytes[i]),
    ensures
        fractions_fit(bytes),
{
    assert forall|upto: int| 0 <= upto <= bytes.len() implies (#[trigger] scan_upto(
        bytes,
        upto,
    )).counted <= MAX_FRACTION_DIGITS by {
        lemma_no_fraction_without_a_point(bytes, upto);
    }
}

proof fn lemma_no_fraction_without_a_point(bytes: Seq<u8>, upto: int)
    requires
        0 <= upto <= bytes.len(),
        forall|i: int| 0 <= i < bytes.len() ==> !is_point(#[trigger] bytes[i]),
    ensures
        scan_upto(bytes, upto).part != ScanPart::Fraction,
        scan_upto(bytes, upto).counted == 0,
    decreases upto,
{
    if upto > 0 {
        lemma_no_fraction_without_a_point(bytes, upto - 1);
        assert(!is_point(bytes[upto - 1]));
    }
}

} // verus!
