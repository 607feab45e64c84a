//! Decimal numbers as `rust_decimal` parses them.
use rust_decimal::Decimal;
use std::str::FromStr;
use vstd::prelude::*;

verus! {

/// A `rust_decimal::Decimal` taken apart: sign, the 96-bit magnitude of the
/// mantissa and the power of ten it is divided by. Its value is
/// (-1 if negative) * magnitude / 10^scale.
#[derive(Clone, Copy, Debug, PartialEq, Eq, Structural)]
pub struct DecimalValue {
    pub negative: bool,
    pub magnitude: u128,
    pub scale: u32,
}

impl DecimalValue {
    /// The magnitude fits in 96 bits and the scale is at most 28, as for
    /// every `Decimal`.
    pub open spec fn wf(self) -> bool {
        &&& self.magnitude < 0x1_0000_0000_0000_0000_0000_0000
        &&& self.scale <= 28
    }

    pub open spec fn parts(self) -> (bool, int, int) {
        (self.negative, self.magnitude as int, self.scale as int)
    }
}

/// `rust_decimal`'s parse error.
#[verifier::external_type_specification]
#[verifier::external_body]
pub struct ExDecimalError(rust_decimal::Error);

/// What `<rust_decimal::Decimal as FromStr>::from_str(s)` yields: the sign,
/// mantissa magnitude and scale of the parsed number, or nothing where it
/// returns an error.
pub uninterp spec fn spec_parse_decimal(s: Seq<char>) -> Option<(bool, int, int)>;

/// The parsed number of `s` as a `DecimalValue`, if `s` parses.
pub open spec fn parsed_decimal(s: Seq<char>) -> Option<DecimalValue> {
    match spec_parse_decimal(s) {
        Some(p) => Some(DecimalValue { negative: p.0, magnitude: p.1 as u128, scale: p.2 as u32 }),
        None => None,
    }
}

/// Calls `rust_decimal::Decimal::from_str(s)` (what `str::parse::<Decimal>`
/// calls) and takes the result apart with `is_sign_negative`, `mantissa`
/// and `scale`. Claimed: the call succeeds exactly where the name
/// `spec_parse_decimal` has a number, the parts returned are that number's,
/// and, as for every `Decimal`, the magnitude is below 2^96 and the scale at
/// most 28. Which strings parse, and how digits beyond the precision are
/// rounded, is not stated.
#[verifier::external_body]
pub(crate) fn parse_decimal(s: &str) -> (r: Result<DecimalValue, rust_decimal::Error>)
    ensures
        r is Ok <==> spec_parse_decimal(s@) is Some,
        r matches Ok(d) ==> d.wf() && spec_parse_decimal(s@) == Some(d.parts()),
{
    match Decimal::from_str(s) {
        Ok(d) => Ok(
            DecimalValue {
                negative: d.is_sign_negative(),
                magnitude: d.mantissa().unsigned_abs(),
                scale: d.scale(),
            },
        ),
        Err(e) => Err(e),
    }
}

} // verus!
