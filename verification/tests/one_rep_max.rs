use reps::one_rep_max::{
    best_formula, calc_range, calc_with_formula, is_defined_at, Formula, FormulaChoice,
};
use reps::weight_conversion::{
    WeightUnit, WeightUnitType, KILOGRAM_SCALE, MAX_VALUE, POUND_SCALE,
};

fn pounds(value: u128) -> WeightUnit {
    WeightUnit::new(value, WeightUnitType::Pounds)
}

fn kilograms(value: u128) -> WeightUnit {
    WeightUnit::new(value, WeightUnitType::Kilograms)
}

fn all_formulas() -> Vec<Formula> {
    vec![Formula::Epley, Formula::Brzycki, Formula::McGlothin, Formula::Kelley]
}

#[test]
fn best_formula_by_band() {
    assert_eq!(best_formula(5), Formula::Epley);
    assert_eq!(best_formula(8), Formula::Brzycki);
    assert_eq!(best_formula(12), Formula::McGlothin);
    assert_eq!(best_formula(20), Formula::Epley);
}

#[test]
fn best_formula_for_every_count() {
    let mut reps: u8 = 0;
    loop {
        let expected = if (7..=10).contains(&reps) {
            Formula::Brzycki
        } else if (11..=15).contains(&reps) {
            Formula::McGlothin
        } else {
            Formula::Epley
        };
        assert_eq!(best_formula(reps), expected);
        if reps == u8::MAX {
            break;
        }
        reps += 1;
    }
}

#[test]
fn best_formula_at_the_band_edges() {
    assert_eq!(best_formula(0), Formula::Epley);
    assert_eq!(best_formula(1), Formula::Epley);
    assert_eq!(best_formula(6), Formula::Epley);
    assert_eq!(best_formula(7), Formula::Brzycki);
    assert_eq!(best_formula(10), Formula::Brzycki);
    assert_eq!(best_formula(11), Formula::McGlothin);
    assert_eq!(best_formula(15), Formula::McGlothin);
    assert_eq!(best_formula(16), Formula::Epley);
    assert_eq!(best_formula(37), Formula::Epley);
    assert_eq!(best_formula(255), Formula::Epley);
}

#[test]
fn formula_names() {
    assert_eq!(Formula::Epley.to_string(), "Epley");
    assert_eq!(Formula::Brzycki.to_string(), "Brzycki");
    assert_eq!(Formula::McGlothin.to_string(), "McGlothin");
    assert_eq!(Formula::Kelley.to_string(), "Kelley");
}

#[test]
fn each_formula_on_225_pounds_for_5() {
    let weight = pounds(225 * POUND_SCALE);
    assert_eq!(calc_with_formula(weight, 5, Formula::Epley), pounds(262_462_500_000));
    assert_eq!(calc_with_formula(weight, 5, Formula::Brzycki), pounds(253_125_000_000));
    assert_eq!(calc_with_formula(weight, 5, Formula::McGlothin), pounds(253_125_000_000));
    assert_eq!(calc_with_formula(weight, 5, Formula::Kelley), pounds(256_275_000_000));
}

#[test]
fn each_formula_on_kilograms_for_15() {
    let weight = kilograms(14_288_159_655_000_000_000);
    assert_eq!(calc_with_formula(weight, 15, Formula::Epley), kilograms(21_425_095_402_672_500_000));
    assert_eq!(calc_with_formula(weight, 15, Formula::Brzycki), kilograms(23_380_624_890_000_000_000));
    assert_eq!(calc_with_formula(weight, 15, Formula::McGlothin), kilograms(19_646_219_525_625_000_000));
    assert_eq!(calc_with_formula(weight, 15, Formula::Kelley), kilograms(20_246_322_231_135_000_000));
}

#[test]
fn estimates_round_to_the_nearest_unit() {
    // 100 * 36 / 27 = 133.333...
    assert_eq!(
        calc_with_formula(pounds(100 * POUND_SCALE), 10, Formula::Brzycki).value,
        133_333_333_333
    );
    // 1.1665, 2.333, 3.4995 and 4.666 billionths.
    assert_eq!(calc_with_formula(pounds(1), 5, Formula::Epley).value, 1);
    assert_eq!(calc_with_formula(pounds(2), 5, Formula::Epley).value, 2);
    assert_eq!(calc_with_formula(pounds(3), 5, Formula::Epley).value, 3);
    assert_eq!(calc_with_formula(pounds(4), 5, Formula::Epley).value, 5);
    // 36 / 27 = 1.333... billionths.
    assert_eq!(calc_with_formula(pounds(1), 10, Formula::Brzycki).value, 1);
    // 2.5, 13.5 and 4.5 billionths: halfway cases go to the even neighbour.
    assert_eq!(calc_with_formula(pounds(2), 10, Formula::McGlothin).value, 2);
    assert_eq!(calc_with_formula(pounds(3), 29, Formula::Brzycki).value, 14);
    assert_eq!(calc_with_formula(pounds(1), 29, Formula::Brzycki).value, 4);
}

#[test]
fn no_repetitions() {
    let weight = pounds(100 * POUND_SCALE);
    assert_eq!(calc_with_formula(weight, 0, Formula::Epley), weight);
    assert_eq!(calc_with_formula(weight, 0, Formula::McGlothin), weight);
    assert_eq!(calc_with_formula(weight, 0, Formula::Kelley), weight);
    // 36 / 37 of the weight.
    assert_eq!(calc_with_formula(weight, 0, Formula::Brzycki), pounds(97_297_297_297));
    assert_eq!(reps::one_rep_max::calc(weight, 0), weight);
}

#[test]
fn extreme_repetitions() {
    let weight = pounds(100 * POUND_SCALE);
    assert_eq!(calc_with_formula(weight, 36, Formula::Brzycki), pounds(3_600 * POUND_SCALE));
    assert_eq!(calc_with_formula(weight, 255, Formula::Epley), pounds(949_150_000_000));
    assert_eq!(calc_with_formula(weight, 255, Formula::McGlothin), pounds(737_500_000_000));
    assert_eq!(calc_with_formula(weight, 255, Formula::Kelley), pounds(808_900_000_000));
    assert_eq!(reps::one_rep_max::calc(weight, 255), pounds(949_150_000_000));
    assert_eq!(reps::one_rep_max::calc(weight, 37), pounds(223_210_000_000));
}

#[test]
fn nothing_lifted_estimates_nothing() {
    for formula in all_formulas() {
        assert_eq!(calc_with_formula(kilograms(0), 8, formula), kilograms(0));
    }
    assert_eq!(calc_range(kilograms(0), 8), (kilograms(0), kilograms(0)));
}

#[test]
fn largest_weight_has_an_estimate() {
    let weight = pounds(MAX_VALUE);
    assert_eq!(
        calc_with_formula(weight, 36, Formula::Brzycki).value,
        36 * MAX_VALUE
    );
    assert_eq!(
        calc_with_formula(weight, 255, Formula::Epley).value,
        94_915 * (MAX_VALUE / 10_000)
    );
}

#[test]
fn calc_uses_the_best_formula() {
    let weight = pounds(225 * POUND_SCALE);
    let mut reps: u8 = 0;
    while reps < 50 {
        let expected = calc_with_formula(weight, reps, best_formula(reps));
        assert_eq!(reps::one_rep_max::calc(weight, reps), expected);
        reps += 1;
    }
    assert_eq!(reps::one_rep_max::calc(weight, 5), pounds(262_462_500_000));
    assert_eq!(reps::one_rep_max::calc(weight, 8), pounds(279_310_344_828));
    assert_eq!(reps::one_rep_max::calc(weight, 12), pounds(292_500_000_000));
    assert_eq!(reps::one_rep_max::calc(weight, 20), pounds(374_850_000_000));
}

#[test]
fn estimate_keeps_the_unit() {
    for formula in all_formulas() {
        assert_eq!(
            calc_with_formula(pounds(POUND_SCALE), 3, formula).unit_type,
            WeightUnitType::Pounds
        );
        assert_eq!(
            calc_with_formula(kilograms(KILOGRAM_SCALE), 3, formula).unit_type,
            WeightUnitType::Kilograms
        );
    }
    assert_eq!(
        reps::one_rep_max::calc(kilograms(KILOGRAM_SCALE), 3).unit_type,
        WeightUnitType::Kilograms
    );
    let (low, high) = calc_range(kilograms(KILOGRAM_SCALE), 3);
    assert_eq!(low.unit_type, WeightUnitType::Kilograms);
    assert_eq!(high.unit_type, WeightUnitType::Kilograms);
}

#[test]
fn estimates_do_not_fall_as_repetitions_rise() {
    let weights: Vec<u128> =
        vec![0, 1, 7, 45 * POUND_SCALE, 225 * POUND_SCALE, 142 * KILOGRAM_SCALE + 1, MAX_VALUE];
    for value in weights {
        for formula in all_formulas() {
            let mut previous: u128 = calc_with_formula(pounds(value), 1, formula).value;
            let mut reps: u8 = 2;
            while reps <= 36 {
                let estimate: u128 = calc_with_formula(pounds(value), reps, formula).value;
                assert!(previous <= estimate);
                previous = estimate;
                reps += 1;
            }
        }
    }
}

#[test]
fn range_of_225_pounds_for_5() {
    let (low, high) = calc_range(pounds(225 * POUND_SCALE), 5);
    assert_eq!(low, pounds(253_125_000_000));
    assert_eq!(high, pounds(262_462_500_000));
}

#[test]
fn range_of_kilograms_for_15() {
    let (low, high) = calc_range(kilograms(14_288_159_655_000_000_000), 15);
    assert_eq!(low, kilograms(19_646_219_525_625_000_000));
    assert_eq!(high, kilograms(23_380_624_890_000_000_000));
}

#[test]
fn range_bounds_every_formula() {
    let weights: Vec<u128> =
        vec![0, 1, 3, 45 * POUND_SCALE, 225 * POUND_SCALE, 142 * KILOGRAM_SCALE + 1, MAX_VALUE];
    for value in weights {
        let mut reps: u8 = 0;
        while reps <= 36 {
            let (low, high) = calc_range(kilograms(value), reps);
            assert!(low.value <= high.value);
            let mut low_met: bool = false;
            let mut high_met: bool = false;
            for formula in all_formulas() {
                let estimate = calc_with_formula(kilograms(value), reps, formula);
                assert!(low.value <= estimate.value && estimate.value <= high.value);
                low_met = low_met || estimate == low;
                high_met = high_met || estimate == high;
            }
            assert!(low_met && high_met);
            reps += 1;
        }
    }
}

#[test]
fn brzycki_has_no_value_at_37_repetitions() {
    let weight = pounds(100 * POUND_SCALE);
    assert!(is_defined_at(weight, 0, Formula::Brzycki));
    assert!(is_defined_at(weight, 36, Formula::Brzycki));
    assert!(!is_defined_at(weight, 37, Formula::Brzycki));
    assert!(!is_defined_at(pounds(0), 37, Formula::Brzycki));
    assert!(is_defined_at(weight, 37, Formula::Epley));
    assert!(is_defined_at(weight, 255, Formula::McGlothin));
    assert!(is_defined_at(weight, 255, Formula::Kelley));
}

#[test]
fn brzycki_beyond_37_repetitions_has_a_value_for_no_weight_only() {
    assert!(!is_defined_at(pounds(1), 38, Formula::Brzycki));
    assert!(!is_defined_at(pounds(100 * POUND_SCALE), 255, Formula::Brzycki));
    assert!(is_defined_at(pounds(0), 38, Formula::Brzycki));
    assert!(is_defined_at(kilograms(0), 255, Formula::Brzycki));
    assert_eq!(calc_with_formula(pounds(0), 38, Formula::Brzycki), pounds(0));
    assert_eq!(calc_with_formula(kilograms(0), 255, Formula::Brzycki), kilograms(0));
    assert_eq!(calc_range(pounds(0), 38), (pounds(0), pounds(0)));
    assert_eq!(calc_range(kilograms(0), 255), (kilograms(0), kilograms(0)));
}

#[test]
fn formula_choices_by_tag() {
    assert_eq!(FormulaChoice::from_tag("best"), Some(FormulaChoice::Best));
    assert_eq!(FormulaChoice::from_tag("epley"), Some(FormulaChoice::Named(Formula::Epley)));
    assert_eq!(FormulaChoice::from_tag("brzychi"), Some(FormulaChoice::Named(Formula::Brzycki)));
    assert_eq!(
        FormulaChoice::from_tag("mcglothin"),
        Some(FormulaChoice::Named(Formula::McGlothin))
    );
    assert_eq!(FormulaChoice::from_tag("kelley"), Some(FormulaChoice::Named(Formula::Kelley)));
}

#[test]
fn unknown_formula_tags_name_nothing() {
    assert_eq!(FormulaChoice::from_tag(""), None);
    assert_eq!(FormulaChoice::from_tag("Epley"), None);
    assert_eq!(FormulaChoice::from_tag("best "), None);
    assert_eq!(FormulaChoice::from_tag("lombardi"), None);
    assert_eq!(FormulaChoice::from_tag("brzycki"), None);
    assert_eq!(FormulaChoice::from_tag("Brzycki"), None);
    assert_eq!(FormulaChoice::from_tag("pounds"), None);
}

#[test]
fn chosen_formula_at_repetitions() {
    assert_eq!(FormulaChoice::Best.formula(5), Formula::Epley);
    assert_eq!(FormulaChoice::Best.formula(8), Formula::Brzycki);
    assert_eq!(FormulaChoice::Best.formula(12), Formula::McGlothin);
    assert_eq!(FormulaChoice::Best.formula(20), Formula::Epley);
    for formula in all_formulas() {
        assert_eq!(FormulaChoice::Named(formula).formula(5), formula);
        assert_eq!(FormulaChoice::Named(formula).formula(8), formula);
        assert_eq!(FormulaChoice::Named(formula).formula(12), formula);
    }
}
