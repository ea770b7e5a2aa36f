//! Weights tagged with their unit, and conversion between pounds and kilograms.

use crate::rounding::{div_round, lemma_round_div_bounds, round_div};
use vstd::arithmetic::div_mod::*;
use vstd::prelude::*;
use vstd::string::StringExecFns;

verus! {

/// Value units in one pound: a weight in pounds counts billionths of a pound.
pub const POUND_SCALE: u128 = 1_000_000_000;

/// Value units in one kilogram. The kilogram is divided a hundred million times
/// finer than the pound, so that every value in pounds is a whole value in
/// kilograms.
pub const KILOGRAM_SCALE: u128 = 100_000_000_000_000_000;

/// Conversion constant: 1 pound = 0.45359237 kilograms, so one unit of a value
/// in pounds is this many units of a value in kilograms.
pub const POUNDS_TO_KILOGRAMS: u128 = 45_359_237;

/// A value up to which every operation of the library accepts a weight:
/// a thousand billion billion pounds, or ten thousand billion kilograms.
pub const MAX_VALUE: u128 = 1_000_000_000_000_000_000_000_000_000_000;

/// The unit a weight is measured in.
#[derive(Debug, PartialEq, Eq, Clone, Copy, Structural)]
pub enum WeightUnitType {
    Pounds,
    Kilograms,
}

/// A weight: `value` billionths of a pound, or `value` parts of a kilogram
/// divided into `KILOGRAM_SCALE`.
#[derive(Debug, PartialEq, Eq, Clone, Copy, Structural)]
pub struct WeightUnit {
    pub value: u128,
    pub unit_type: WeightUnitType,
}

/// Value units in one pound or one kilogram.
pub open spec fn scale_of(unit_type: WeightUnitType) -> u128 {
    match unit_type {
        WeightUnitType::Pounds => POUND_SCALE,
        WeightUnitType::Kilograms => KILOGRAM_SCALE,
    }
}

/// The value in kilograms of a value in pounds: exactly 0.45359237 of the weight.
pub open spec fn kilograms_from_pounds(value: int) -> int {
    value * POUNDS_TO_KILOGRAMS
}

/// The value in pounds of a value in kilograms, rounded to the nearest unit.
pub open spec fn pounds_from_kilograms(value: int) -> int {
    round_div(value, POUNDS_TO_KILOGRAMS as int)
}

/// The unit that a selector tag names: `pounds` or `kilograms`, and no other.
pub open spec fn unit_of_tag(tag: Seq<char>) -> Option<WeightUnitType> {
    if tag == "pounds"@ {
        Some(WeightUnitType::Pounds)
    } else if tag == "kilograms"@ {
        Some(WeightUnitType::Kilograms)
    } else {
        None
    }
}

/// The unit's name in full.
pub open spec fn unit_name(unit_type: WeightUnitType) -> Seq<char> {
    match unit_type {
        WeightUnitType::Pounds => "Pounds"@,
        WeightUnitType::Kilograms => "Kilograms"@,
    }
}

/// The unit's abbreviation, as it follows a number.
pub open spec fn unit_abbreviation(unit_type: WeightUnitType) -> Seq<char> {
    match unit_type {
        WeightUnitType::Pounds => "lbs"@,
        WeightUnitType::Kilograms => "kg"@,
    }
}

/// The character of a decimal digit.
pub open spec fn digit(d: int) -> char
    recommends
        0 <= d <= 9,
{
    if d == 0 {
        '0'
    } else if d == 1 {
        '1'
    } else if d == 2 {
        '2'
    } else if d == 3 {
        '3'
    } else if d == 4 {
        '4'
    } else if d == 5 {
        '5'
    } else if d == 6 {
        '6'
    } else if d == 7 {
        '7'
    } else if d == 8 {
        '8'
    } else {
        '9'
    }
}

/// A natural number written in decimal, without leading zeros.
pub open spec fn decimal(n: nat) -> Seq<char>
    decreases n,
{
    if n < 10 {
        seq![digit(n as int)]
    } else {
        decimal(n / 10).push(digit((n % 10) as int))
    }
}

/// A value in hundredths of its unit, rounded to the nearest hundredth.
pub open spec fn hundredths(value: int, unit_type: WeightUnitType) -> int {
    round_div(value, scale_of(unit_type) as int / 100)
}

/// Every weight in pounds of up to `MAX_VALUE` has its kilograms.
pub proof fn lemma_kilograms_fit(value: int)
    requires
        0 <= value <= MAX_VALUE,
    ensures
        kilograms_from_pounds(value) <= u128::MAX,
{
}

/// Pounds taken to kilograms and back come out unchanged, whatever the weight:
/// the way there is exact, so the way back finds the same value again.
pub proof fn lemma_pounds_round_trip(value: int)
    requires
        value >= 0,
    ensures
        pounds_from_kilograms(kilograms_from_pounds(value)) == value,
        ({
            let back: int = pounds_from_kilograms(kilograms_from_pounds(value));
            POUND_SCALE * (back - value) <= value && POUND_SCALE * (value - back) <= value
        }),
{
    lemma_fundamental_div_mod_converse(
        value * POUNDS_TO_KILOGRAMS,
        POUNDS_TO_KILOGRAMS as int,
        value,
        0,
    );
}

/// Kilograms taken to pounds and back come out within half a billionth of a
/// pound of where they started.
pub proof fn lemma_kilograms_round_trip(value: int)
    requires
        value >= 0,
    ensures
        ({
            let back: int = kilograms_from_pounds(pounds_from_kilograms(value));
            2 * (back - value) <= POUNDS_TO_KILOGRAMS && 2 * (value - back) <= POUNDS_TO_KILOGRAMS
        }),
{
    lemma_round_div_bounds(value, POUNDS_TO_KILOGRAMS as int);
}

impl WeightUnitType {
    /// The unit that a selector tag names, if it names one.
    pub fn from_tag(tag: &str) -> (unit: Option<WeightUnitType>)
        ensures
            unit == unit_of_tag(tag@),
    {
        let tag = String::from_str(tag);
        if tag == String::from_str("pounds") {
            Some(WeightUnitType::Pounds)
        } else if tag == String::from_str("kilograms") {
            Some(WeightUnitType::Kilograms)
        } else {
            None
        }
    }

    /// Value units in one pound or one kilogram.
    pub fn scale(self) -> (scale: u128)
        ensures
            scale == scale_of(self),
    {
        match self {
            WeightUnitType::Pounds => POUND_SCALE,
            WeightUnitType::Kilograms => KILOGRAM_SCALE,
        }
    }
}

impl WeightUnit {
    /// The same weight expressed in kilograms.
    pub open spec fn in_kilograms(self) -> WeightUnit {
        match self.unit_type {
            WeightUnitType::Pounds => WeightUnit {
                value: kilograms_from_pounds(self.value as int) as u128,
                unit_type: WeightUnitType::Kilograms,
            },
            WeightUnitType::Kilograms => self,
        }
    }

    /// The same weight expressed in pounds.
    pub open spec fn in_pounds(self) -> WeightUnit {
        match self.unit_type {
            WeightUnitType::Kilograms => WeightUnit {
                value: pounds_from_kilograms(self.value as int) as u128,
                unit_type: WeightUnitType::Pounds,
            },
            WeightUnitType::Pounds => self,
        }
    }

    /// The weight as text: the number of units to two decimal places, a space
    /// and the unit's abbreviation, as in `225.00 lbs`.
    pub open spec fn display(self) -> Seq<char> {
        let rounded: int = hundredths(self.value as int, self.unit_type);
        decimal((rounded / 100) as nat) + seq![
            '.',
            digit(rounded / 10 % 10),
            digit(rounded % 10),
            ' ',
        ] + unit_abbreviation(self.unit_type)
    }

    /// Whether the weight in kilograms still fits a value.
    pub open spec fn kilograms_fit(self) -> bool {
        self.unit_type == WeightUnitType::Pounds ==> kilograms_from_pounds(self.value as int)
            <= u128::MAX
    }

    /// Create a new `WeightUnit` from a value and a unit type
    pub fn new(value: u128, unit_type: WeightUnitType) -> (result: Self)
        ensures
            result.value == value,
            result.unit_type == unit_type,
    {
        WeightUnit { value, unit_type }
    }

    /// Convert to Kilograms if the weight is in Pounds
    pub fn to_kilograms(&self) -> (result: WeightUnit)
        requires
            self.kilograms_fit(),
        ensures
            result == self.in_kilograms(),
            result.unit_type == WeightUnitType::Kilograms,
            self.unit_type == WeightUnitType::Kilograms ==> result == *self,
            self.unit_type == WeightUnitType::Pounds ==> result.value == kilograms_from_pounds(
                self.value as int,
            ),
            result.in_pounds().value == self.in_pounds().value,
    {
        match self.unit_type {
            WeightUnitType::Pounds => {
                proof {
                    lemma_pounds_round_trip(self.value as int);
                }
                WeightUnit {
                    value: self.value * POUNDS_TO_KILOGRAMS,
                    unit_type: WeightUnitType::Kilograms,
                }
            },
            WeightUnitType::Kilograms => *self,
        }
    }

    /// Convert to Pounds if the weight is in Kilograms
    pub fn to_pounds(&self) -> (result: WeightUnit)
        ensures
            result == self.in_pounds(),
            result.unit_type == WeightUnitType::Pounds,
            self.unit_type == WeightUnitType::Pounds ==> result == *self,
            self.unit_type == WeightUnitType::Kilograms ==> result.value == pounds_from_kilograms(
                self.value as int,
            ),
    {
        match self.unit_type {
            WeightUnitType::Kilograms => WeightUnit {
                value: div_round(self.value, POUNDS_TO_KILOGRAMS),
                unit_type: WeightUnitType::Pounds,
            },
            WeightUnitType::Pounds => *self,
        }
    }

    /// The weight as text, rounded to two decimal places and followed by the
    /// unit's abbreviation.
    pub fn to_string(&self) -> (text: String)
        ensures
            text@ == self.display(),
    {
        proof {
            lemma_round_div_bounds(self.value as int, scale_of(self.unit_type) as int / 100);
            reveal_strlit(".");
            reveal_strlit(" ");
        }
        let rounded: u128 = div_round(self.value, self.unit_type.scale() / 100);
        let whole: u128 = rounded / 100;
        let tenths: u128 = rounded / 10 % 10;
        let last: u128 = rounded % 10;
        let mut text = String::new();
        push_decimal(&mut text, whole);
        text.append(".");
        text.append(digit_str(tenths));
        text.append(digit_str(last));
        text.append(" ");
        text.append(self.get_abbreviation());
        assert(text@ =~= self.display());
        text
    }

    /// Get the unit as a string (either "Pounds" or "Kilograms")
    pub fn get_unit(&self) -> (name: &str)
        ensures
            name@ == unit_name(self.unit_type),
    {
        match self.unit_type {
            WeightUnitType::Pounds => "Pounds",
            WeightUnitType::Kilograms => "Kilograms",
        }
    }

    /// Get the unit's abbreviation (either "lbs" or "kg")
    pub fn get_abbreviation(&self) -> (abbreviation: &str)
        ensures
            abbreviation@ == unit_abbreviation(self.unit_type),
    {
        match self.unit_type {
            WeightUnitType::Pounds => "lbs",
            WeightUnitType::Kilograms => "kg",
        }
    }
}

/// The one-character text of a decimal digit.
fn digit_str(d: u128) -> (text: &'static str)
    requires
        d <= 9,
    ensures
        text@ == seq![digit(d as int)],
{
    proof {
        reveal_strlit("0");
        reveal_strlit("1");
        reveal_strlit("2");
        reveal_strlit("3");
        reveal_strlit("4");
        reveal_strlit("5");
        reveal_strlit("6");
        reveal_strlit("7");
        reveal_strlit("8");
        reveal_strlit("9");
    }
    let text: &'static str = if d == 0 {
        "0"
    } else if d == 1 {
        "1"
    } else if d == 2 {
        "2"
    } else if d == 3 {
        "3"
    } else if d == 4 {
        "4"
    } else if d == 5 {
        "5"
    } else if d == 6 {
        "6"
    } else if d == 7 {
        "7"
    } else if d == 8 {
        "8"
    } else {
        "9"
    };
    assert(text@ =~= seq![digit(d as int)]);
    text
}

/// Appends a number in decimal to a text.
fn push_decimal(text: &mut String, n: u128)
    ensures
        final(text)@ == old(text)@ + decimal(n as nat),
    decreases n,
{
    if n >= 10 {
        push_decimal(text, n / 10);
    }
    text.append(digit_str(n % 10));
    assert(text@ =~= old(text)@ + decimal(n as nat));
}

} // verus!
