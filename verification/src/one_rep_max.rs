//! Estimates of the one-repetition maximum from a weight lifted for several
//! repetitions, by four published formulas.

use crate::rounding::{
    div_round, lemma_round_div_antitonic, lemma_round_div_bounds, lemma_round_div_monotonic,
    round_div,
};
use crate::weight_conversion::{WeightUnit, MAX_VALUE};
use vstd::math::{max, min};
use vstd::prelude::*;
use vstd::string::StringExecFns;

verus! {

/// The formulas on offer.
#[derive(Debug, PartialEq, Eq, Clone, Copy, Structural)]
pub enum Formula {
    Epley,
    Brzycki,
    McGlothin,
    Kelley,
}

impl Formula {
    /// The formula's name, after its author.
    pub open spec fn name(self) -> Seq<char> {
        match self {
            Formula::Epley => "Epley"@,
            Formula::Brzycki => "Brzycki"@,
            Formula::McGlothin => "McGlothin"@,
            Formula::Kelley => "Kelley"@,
        }
    }

    /// The formula's name as text.
    pub fn to_string(&self) -> (text: String)
        ensures
            text@ == self.name(),
    {
        let name = match self {
            Formula::Epley => "Epley",
            Formula::Brzycki => "Brzycki",
            Formula::McGlothin => "McGlothin",
            Formula::Kelley => "Kelley",
        };
        String::from_str(name)
    }
}

/// What an estimate is asked by: the formula that suits the repetitions best,
/// or one formula whatever the repetitions.
#[derive(Debug, PartialEq, Eq, Clone, Copy, Structural)]
pub enum FormulaChoice {
    Best,
    Named(Formula),
}

impl FormulaChoice {
    /// The choice that a selector tag names: `best`, `epley`, `brzychi`,
    /// `mcglothin` or `kelley`, and no other.
    pub open spec fn of_tag(tag: Seq<char>) -> Option<FormulaChoice> {
        if tag == "best"@ {
            Some(FormulaChoice::Best)
        } else if tag == "epley"@ {
            Some(FormulaChoice::Named(Formula::Epley))
        } else if tag == "brzychi"@ {
            Some(FormulaChoice::Named(Formula::Brzycki))
        } else if tag == "mcglothin"@ {
            Some(FormulaChoice::Named(Formula::McGlothin))
        } else if tag == "kelley"@ {
            Some(FormulaChoice::Named(Formula::Kelley))
        } else {
            None
        }
    }

    /// The formula that the choice comes to at a number of repetitions.
    pub open spec fn formula_at(self, reps: int) -> Formula {
        match self {
            FormulaChoice::Best => best_formula_for(reps),
            FormulaChoice::Named(formula) => formula,
        }
    }

    /// The choice that a selector tag names, if it names one.
    pub fn from_tag(tag: &str) -> (choice: Option<FormulaChoice>)
        ensures
            choice == FormulaChoice::of_tag(tag@),
    {
        let tag = String::from_str(tag);
        if tag == String::from_str("best") {
            Some(FormulaChoice::Best)
        } else if tag == String::from_str("epley") {
            Some(FormulaChoice::Named(Formula::Epley))
        } else if tag == String::from_str("brzychi") {
            Some(FormulaChoice::Named(Formula::Brzycki))
        } else if tag == String::from_str("mcglothin") {
            Some(FormulaChoice::Named(Formula::McGlothin))
        } else if tag == String::from_str("kelley") {
            Some(FormulaChoice::Named(Formula::Kelley))
        } else {
            None
        }
    }

    /// The formula to estimate by at a number of repetitions.
    pub fn formula(self, reps: u8) -> (formula: Formula)
        ensures
            formula == self.formula_at(reps as int),
    {
        match self {
            FormulaChoice::Best => best_formula(reps),
            FormulaChoice::Named(formula) => formula,
        }
    }
}

/// Numerator of the factor by which a formula multiplies the weight:
/// `1 + 0.0333 r` for Epley, `1 + 0.025 r` for McGlothin and `1 + 0.0278 r`
/// for Kelley, each in ten-thousandths, and the 36 of Brzycki's `36 / (37 - r)`.
pub open spec fn factor_numerator(reps: int, formula: Formula) -> int {
    match formula {
        Formula::Epley => 10_000 + 333 * reps,
        Formula::Brzycki => 36,
        Formula::McGlothin => 10_000 + 250 * reps,
        Formula::Kelley => 10_000 + 278 * reps,
    }
}

/// Denominator of the factor by which a formula multiplies the weight.
pub open spec fn factor_denominator(reps: int, formula: Formula) -> int {
    match formula {
        Formula::Brzycki => 37 - reps,
        _ => 10_000,
    }
}

/// Whether the formula has a value for this weight at this number of
/// repetitions. Brzycki's has none at 37 repetitions, where it divides by
/// zero, and beyond them only for no weight at all: of any other weight it
/// would make a negative one.
pub open spec fn defined_at(value: int, reps: int, formula: Formula) -> bool {
    formula == Formula::Brzycki ==> reps < 37 || (reps > 37 && value == 0)
}

/// The estimated one-repetition maximum for a weight of `value` lifted `reps`
/// times: the weight times the formula's factor, rounded to the nearest unit.
/// No weight estimates no weight, whatever the factor.
pub open spec fn estimate(value: int, reps: int, formula: Formula) -> int {
    if value == 0 {
        0
    } else {
        round_div(value * factor_numerator(reps, formula), factor_denominator(reps, formula))
    }
}

/// Whether the estimate can be computed: the formula has a value, and the
/// weight times the factor's numerator still fits a value.
pub open spec fn estimable(value: int, reps: int, formula: Formula) -> bool {
    &&& defined_at(value, reps, formula)
    &&& value * factor_numerator(reps, formula) <= u128::MAX
}

/// The formula that suits a number of repetitions best: Epley up to 6,
/// Brzycki from 7 to 10, McGlothin from 11 to 15, and Epley for all others.
pub open spec fn best_formula_for(reps: int) -> Formula {
    if 7 <= reps <= 10 {
        Formula::Brzycki
    } else if 11 <= reps <= 15 {
        Formula::McGlothin
    } else {
        Formula::Epley
    }
}

/// The least of the four formulas' estimates.
pub open spec fn lowest_estimate(value: int, reps: int) -> int {
    min(
        min(estimate(value, reps, Formula::Epley), estimate(value, reps, Formula::Brzycki)),
        min(estimate(value, reps, Formula::McGlothin), estimate(value, reps, Formula::Kelley)),
    )
}

/// The greatest of the four formulas' estimates.
pub open spec fn highest_estimate(value: int, reps: int) -> int {
    max(
        max(estimate(value, reps, Formula::Epley), estimate(value, reps, Formula::Brzycki)),
        max(estimate(value, reps, Formula::McGlothin), estimate(value, reps, Formula::Kelley)),
    )
}

/// No formula estimates less than nothing or more than 36 times the weight,
/// and every weight up to `MAX_VALUE` has its estimate wherever the formula
/// has a value.
pub proof fn lemma_estimate_bounded(value: int, reps: int, formula: Formula)
    requires
        value >= 0,
        0 <= reps <= u8::MAX,
        defined_at(value, reps, formula),
    ensures
        0 <= estimate(value, reps, formula) <= 36 * value,
        estimate(value, reps, formula) <= value * factor_numerator(reps, formula),
        value <= MAX_VALUE ==> estimable(value, reps, formula),
{
    let numerator: int = factor_numerator(reps, formula);
    let denominator: int = factor_denominator(reps, formula);
    assert(0 <= value * numerator <= value * 94_915) by (nonlinear_arith)
        requires
            value >= 0,
            0 <= numerator <= 94_915,
    ;
    if value > 0 {
        lemma_round_div_bounds(value * numerator, denominator);
        lemma_round_div_antitonic(value * numerator, denominator, 1);
        assert(round_div(value * numerator, 1) == value * numerator);
    }
}

/// For a fixed weight no formula's estimate goes down as the repetitions go
/// up, over all repetitions for Epley, McGlothin and Kelley and up to 36 for
/// Brzycki. Where the estimate at the higher number can be computed, so can
/// the one at the lower.
pub proof fn lemma_estimate_monotonic(value: int, reps: int, more_reps: int, formula: Formula)
    requires
        value >= 0,
        0 <= reps <= more_reps,
        formula == Formula::Brzycki ==> more_reps < 37,
    ensures
        estimate(value, reps, formula) <= estimate(value, more_reps, formula),
        estimable(value, more_reps, formula) ==> estimable(value, reps, formula),
{
    assert(value * factor_numerator(reps, formula) <= value * factor_numerator(
        more_reps,
        formula,
    )) by (nonlinear_arith)
        requires
            value >= 0,
            factor_numerator(reps, formula) <= factor_numerator(more_reps, formula),
    ;
    if formula == Formula::Brzycki {
        lemma_round_div_antitonic(value * 36, 37 - reps, 37 - more_reps);
    } else {
        let fewer: int = factor_numerator(reps, formula);
        let more: int = factor_numerator(more_reps, formula);
        assert(0 <= value * fewer <= value * more) by (nonlinear_arith)
            requires
                value >= 0,
                0 <= fewer <= more,
        ;
        lemma_round_div_monotonic(value * fewer, value * more, 10_000);
    }
}

/// The lowest and the highest estimate bound the estimate of every formula,
/// and each of the two is the estimate of one of them.
pub proof fn lemma_estimates_within_range(value: int, reps: int, formula: Formula)
    ensures
        lowest_estimate(value, reps) <= estimate(value, reps, formula) <= highest_estimate(
            value,
            reps,
        ),
        exists|lowest: Formula| lowest_estimate(value, reps) == estimate(value, reps, lowest),
        exists|highest: Formula| highest_estimate(value, reps) == estimate(value, reps, highest),
{
    let low: int = lowest_estimate(value, reps);
    let high: int = highest_estimate(value, reps);
    if low == estimate(value, reps, Formula::Epley) {
    } else if low == estimate(value, reps, Formula::Brzycki) {
    } else if low == estimate(value, reps, Formula::McGlothin) {
    } else {
        assert(low == estimate(value, reps, Formula::Kelley));
    }
    if high == estimate(value, reps, Formula::Epley) {
    } else if high == estimate(value, reps, Formula::Brzycki) {
    } else if high == estimate(value, reps, Formula::McGlothin) {
    } else {
        assert(high == estimate(value, reps, Formula::Kelley));
    }
}

/// Whether the formula has a value for this weight at this number of repetitions.
pub fn is_defined_at(weight: WeightUnit, reps: u8, formula: Formula) -> (defined: bool)
    ensures
        defined == defined_at(weight.value as int, reps as int, formula),
{
    match formula {
        Formula::Brzycki => reps < 37 || (reps > 37 && weight.value == 0),
        _ => true,
    }
}

/// Calculate 1RM using best formula
pub fn calc(weight: WeightUnit, reps: u8) -> (result: WeightUnit)
    requires
        estimable(weight.value as int, reps as int, best_formula_for(reps as int)),
    ensures
        result.unit_type == weight.unit_type,
        result.value == estimate(weight.value as int, reps as int, best_formula_for(reps as int)),
{
    let formula = best_formula(reps);

    calc_with_formula(weight, reps, formula)
}

/// Calculate 1RM using the specified formula
pub fn calc_with_formula(weight: WeightUnit, reps: u8, formula: Formula) -> (result: WeightUnit)
    requires
        estimable(weight.value as int, reps as int, formula),
    ensures
        result.unit_type == weight.unit_type,
        result.value == estimate(weight.value as int, reps as int, formula),
{
    match formula {
        Formula::Epley => epley(weight, reps),
        Formula::Brzycki => brzycki(weight, reps),
        Formula::McGlothin => mcglothin(weight, reps),
        Formula::Kelley => kelley(weight, reps),
    }
}

/// Helper function to calculate one rep max with a given factor
fn calculate_1rm(weight: WeightUnit, numerator: u128, denominator: u128) -> (result: WeightUnit)
    requires
        denominator > 0,
        weight.value * numerator <= u128::MAX,
    ensures
        result.unit_type == weight.unit_type,
        result.value == round_div(weight.value * numerator, denominator as int),
        weight.value == 0 ==> result.value == 0,
{
    let scaled: u128 = weight.value * numerator;
    let result: u128 = div_round(scaled, denominator);
    proof {
        if weight.value == 0 {
            assert(weight.value * numerator == 0);
            lemma_round_div_bounds(0, denominator as int);
        }
    }
    WeightUnit::new(result, weight.unit_type)
}

/// Calculate 1RM using the Epley formula
fn epley(weight: WeightUnit, reps: u8) -> (result: WeightUnit)
    requires
        estimable(weight.value as int, reps as int, Formula::Epley),
    ensures
        result.unit_type == weight.unit_type,
        result.value == estimate(weight.value as int, reps as int, Formula::Epley),
{
    calculate_1rm(weight, 10_000 + 333 * reps as u128, 10_000)
}

/// Calculate 1RM using the Brzycki formula
fn brzycki(weight: WeightUnit, reps: u8) -> (result: WeightUnit)
    requires
        estimable(weight.value as int, reps as int, Formula::Brzycki),
    ensures
        result.unit_type == weight.unit_type,
        result.value == estimate(weight.value as int, reps as int, Formula::Brzycki),
{
    if reps > 37 {
        // Only no weight at all has a value here.
        return weight;
    }
    calculate_1rm(weight, 36, 37 - reps as u128)
}

/// Calculate 1RM using the McGlothin formula
fn mcglothin(weight: WeightUnit, reps: u8) -> (result: WeightUnit)
    requires
        estimable(weight.value as int, reps as int, Formula::McGlothin),
    ensures
        result.unit_type == weight.unit_type,
        result.value == estimate(weight.value as int, reps as int, Formula::McGlothin),
{
    calculate_1rm(weight, 10_000 + 250 * reps as u128, 10_000)
}

/// Calculate 1RM using the Kelley formula
fn kelley(weight: WeightUnit, reps: u8) -> (result: WeightUnit)
    requires
        estimable(weight.value as int, reps as int, Formula::Kelley),
    ensures
        result.unit_type == weight.unit_type,
        result.value == estimate(weight.value as int, reps as int, Formula::Kelley),
{
    calculate_1rm(weight, 10_000 + 278 * reps as u128, 10_000)
}

/// Determine best 1RM formula based on number or reps
pub fn best_formula(reps: u8) -> (formula: Formula)
    ensures
        formula == best_formula_for(reps as int),
        1 <= reps <= 6 ==> formula == Formula::Epley,
        7 <= reps <= 10 ==> formula == Formula::Brzycki,
        11 <= reps <= 15 ==> formula == Formula::McGlothin,
        reps == 0 || reps > 15 ==> formula == Formula::Epley,
{
    match reps {
        1..=6 => Formula::Epley,
        7..=10 => Formula::Brzycki,
        11..=15 => Formula::McGlothin,
        _ => Formula::Epley,
    }
}

/// The lighter of two weights of one unit, the first where they are equal.
fn lighter(first: WeightUnit, second: WeightUnit) -> (result: WeightUnit)
    ensures
        result == if second.value < first.value {
            second
        } else {
            first
        },
{
    if second.value < first.value {
        second
    } else {
        first
    }
}

/// The heavier of two weights of one unit, the second where they are equal.
fn heavier(first: WeightUnit, second: WeightUnit) -> (result: WeightUnit)
    ensures
        result == if second.value >= first.value {
            second
        } else {
            first
        },
{
    if second.value >= first.value {
        second
    } else {
        first
    }
}

/// Calculate the minimum and maximum 1RM values across all formulas
pub fn calc_range(weight: WeightUnit, reps: u8) -> (range: (WeightUnit, WeightUnit))
    requires
        forall|formula: Formula| #[trigger]
            estimable(weight.value as int, reps as int, formula),
    ensures
        range.0.unit_type == weight.unit_type,
        range.1.unit_type == weight.unit_type,
        range.0.value == lowest_estimate(weight.value as int, reps as int),
        range.1.value == highest_estimate(weight.value as int, reps as int),
        forall|formula: Formula|
            range.0.value <= #[trigger] estimate(weight.value as int, reps as int, formula)
                <= range.1.value,
{
    assert(estimable(weight.value as int, reps as int, Formula::Epley));
    assert(estimable(weight.value as int, reps as int, Formula::Brzycki));
    assert(estimable(weight.value as int, reps as int, Formula::McGlothin));
    assert(estimable(weight.value as int, reps as int, Formula::Kelley));
    let epley = calc_with_formula(weight, reps, Formula::Epley);
    let brzycki = calc_with_formula(weight, reps, Formula::Brzycki);
    let mcglothin = calc_with_formula(weight, reps, Formula::McGlothin);
    let kelley = calc_with_formula(weight, reps, Formula::Kelley);

    let min = lighter(lighter(epley, brzycki), lighter(mcglothin, kelley));
    let max = heavier(heavier(epley, brzycki), heavier(mcglothin, kelley));

    proof {
        assert forall|formula: Formula|
            min.value <= #[trigger] estimate(weight.value as int, reps as int, formula)
                <= max.value by {
            lemma_estimates_within_range(weight.value as int, reps as int, formula);
        }
    }
    (min, max)
}

} // verus!
