//! Which plates to load on a barbell for a target weight, and what a loading weighs.

use crate::weight_conversion::{WeightUnit, WeightUnitType};
use vstd::arithmetic::div_mod::*;
use vstd::arithmetic::mul::*;
use vstd::prelude::*;

verus! {

/// This many plates of this weight go on each side of the bar.
#[derive(Debug, PartialEq, Eq, Clone, Copy, Structural)]
pub struct Plate {
    pub weight: WeightUnit,
    pub quantity: i8,
}

impl Plate {
    /// A plate entry stands for at least one plate.
    pub open spec fn well_formed(self) -> bool {
        self.quantity >= 1
    }
}

/// The weight of the empty bar: 45 pounds or 20 kilograms.
pub open spec fn bar_weight_value(unit_type: WeightUnitType) -> u128 {
    match unit_type {
        WeightUnitType::Pounds => 45_000_000_000,
        WeightUnitType::Kilograms => 2_000_000_000_000_000_000,
    }
}

/// The plate sizes on hand, heaviest first: 45, 35, 25, 10, 5 and 2.5 pounds,
/// or 50, 25, 20, 15, 10, 5, 2.5 and 1.25 kilograms.
pub open spec fn plate_sizes(unit_type: WeightUnitType) -> Seq<u128> {
    match unit_type {
        WeightUnitType::Pounds => seq![
            45_000_000_000u128,
            35_000_000_000u128,
            25_000_000_000u128,
            10_000_000_000u128,
            5_000_000_000u128,
            2_500_000_000u128,
        ],
        WeightUnitType::Kilograms => seq![
            5_000_000_000_000_000_000u128,
            2_500_000_000_000_000_000u128,
            2_000_000_000_000_000_000u128,
            1_500_000_000_000_000_000u128,
            1_000_000_000_000_000_000u128,
            500_000_000_000_000_000u128,
            250_000_000_000_000_000u128,
            125_000_000_000_000_000u128,
        ],
    }
}

/// The lightest plate on hand: 2.5 pounds or 1.25 kilograms.
pub open spec fn smallest_plate(unit_type: WeightUnitType) -> u128 {
    match unit_type {
        WeightUnitType::Pounds => 2_500_000_000,
        WeightUnitType::Kilograms => 125_000_000_000_000_000,
    }
}

/// Largest-first loading of `remaining` with pairs of plates of the sizes
/// from index `from` on: of each size as many pairs as still fit, sizes that do
/// not fit left out.
pub open spec fn greedy_plates(
    sizes: Seq<u128>,
    unit_type: WeightUnitType,
    from: int,
    remaining: int,
) -> Seq<Plate>
    decreases sizes.len() - from,
{
    if from < 0 || from >= sizes.len() {
        Seq::empty()
    } else {
        let pair: int = 2 * sizes[from];
        let rest = greedy_plates(sizes, unit_type, from + 1, remaining % pair);
        if remaining >= pair {
            seq![
                Plate {
                    weight: WeightUnit { value: sizes[from], unit_type },
                    quantity: (remaining / pair) as i8,
                },
            ] + rest
        } else {
            rest
        }
    }
}

/// The plates per side for a target weight: none below the bar's weight, else
/// the largest-first loading of what the target has above the bar.
pub open spec fn plate_plan(weight: WeightUnit) -> Seq<Plate> {
    if weight.value < bar_weight_value(weight.unit_type) {
        Seq::empty()
    } else {
        greedy_plates(
            plate_sizes(weight.unit_type),
            weight.unit_type,
            0,
            weight.value - bar_weight_value(weight.unit_type),
        )
    }
}

/// The least target that would take more of the heaviest plates per side than
/// a plate's quantity can count: the bar and 128 pairs of them, which is 11565
/// pounds or 12820 kilograms.
pub open spec fn load_limit_value(unit_type: WeightUnitType) -> u128 {
    match unit_type {
        WeightUnitType::Pounds => 11_565_000_000_000,
        WeightUnitType::Kilograms => 1_282_000_000_000_000_000_000,
    }
}

/// Whether a plan for the target can be written down: it is below the limit.
pub open spec fn loadable(weight: WeightUnit) -> bool {
    weight.value < load_limit_value(weight.unit_type)
}

/// What the plates of both sides weigh together, without the bar.
pub open spec fn plates_weight(plates: Seq<Plate>) -> int
    decreases plates.len(),
{
    if plates.len() == 0 {
        0
    } else {
        2 * plates[0].weight.value * plates[0].quantity + plates_weight(plates.drop_first())
    }
}

/// What a loaded bar weighs: the bar of the first plate's unit and all plates.
pub open spec fn total_weight(plates: Seq<Plate>) -> int
    recommends
        plates.len() > 0,
{
    bar_weight_value(plates[0].weight.unit_type) + plates_weight(plates)
}

/// Whether every entry holds at least one plate, in the given unit and of a
/// size on hand in it.
pub open spec fn from_inventory(plates: Seq<Plate>, unit_type: WeightUnitType) -> bool {
    forall|i: int|
        0 <= i < plates.len() ==> (#[trigger] plates[i]).well_formed()
            && plates[i].weight.unit_type == unit_type && plate_sizes(unit_type).contains(
            plates[i].weight.value,
        )
}

/// Whether each entry's plates are lighter than those of the entry before.
pub open spec fn heaviest_first(plates: Seq<Plate>) -> bool {
    forall|i: int, j: int|
        0 <= i < j < plates.len() ==> (#[trigger] plates[j]).weight.value < (
        #[trigger] plates[i]).weight.value
}

/// Sizes that a largest-first loading can use up to the last step: each at most
/// three times the next smaller one and a multiple of the smallest.
spec fn graded(sizes: Seq<u128>) -> bool {
    &&& sizes.len() > 0
    &&& forall|i: int|
        0 <= i < sizes.len() ==> 0 < #[trigger] sizes[i] <= 5_000_000_000_000_000_000 && sizes[i]
            % sizes.last() == 0
    &&& forall|i: int|
        0 <= i < sizes.len() - 1 ==> sizes[i + 1] < #[trigger] sizes[i] <= 3 * sizes[i + 1]
}

proof fn lemma_plate_sizes_graded(unit_type: WeightUnitType)
    ensures
        graded(plate_sizes(unit_type)),
        plate_sizes(unit_type).last() == smallest_plate(unit_type),
        load_limit_value(unit_type) == bar_weight_value(unit_type) + 128 * (2 * plate_sizes(
            unit_type,
        )[0]),
{
    let sizes = plate_sizes(unit_type);
    assert forall|i: int| 0 <= i < sizes.len() implies 0 < #[trigger] sizes[i] <= 5_000_000_000_000_000_000
        && sizes[i] % sizes.last() == 0 by {
        if i == 0 {
        } else if i == 1 {
        } else if i == 2 {
        } else if i == 3 {
        } else if i == 4 {
        } else if i == 5 {
        } else if i == 6 {
        } else {
        }
    }
    assert forall|i: int| 0 <= i < sizes.len() - 1 implies sizes[i + 1] < #[trigger] sizes[i] <= 3
        * sizes[i + 1] by {
        if i == 0 {
        } else if i == 1 {
        } else if i == 2 {
        } else if i == 3 {
        } else if i == 4 {
        } else if i == 5 {
        } else {
        }
    }
}

/// Taking pairs of one size off `remaining`: the pairs taken and what is left
/// make up `remaining`, and what is left has the remainder by the smallest pair
/// that `remaining` had.
proof fn lemma_take_pairs(size: int, smallest: int, remaining: int)
    requires
        size > 0,
        smallest > 0,
        size % smallest == 0,
        remaining >= 0,
    ensures
        2 * size * (remaining / (2 * size)) == remaining - remaining % (2 * size),
        0 <= remaining % (2 * size) < 2 * size,
        remaining / (2 * size) >= 0,
        remaining >= 2 * size <==> remaining / (2 * size) >= 1,
        remaining < 2 * size ==> remaining % (2 * size) == remaining,
        (remaining % (2 * size)) % (2 * smallest) == remaining % (2 * smallest),
{
    let pair: int = 2 * size;
    let smallest_pair: int = 2 * smallest;
    let count: int = remaining / pair;
    lemma_fundamental_div_mod(remaining, pair);
    lemma_mod_bound(remaining, pair);
    lemma_div_pos_is_pos(remaining, pair);
    assert(2 * size * count == pair * count) by (nonlinear_arith)
        requires
            pair == 2 * size,
    ;
    if remaining < pair {
        lemma_basic_div(remaining, pair);
        lemma_small_mod(remaining as nat, pair as nat);
    } else {
        lemma_div_is_ordered(pair, remaining, pair);
        lemma_div_by_self(pair);
    }
    let factor: int = size / smallest;
    lemma_fundamental_div_mod(size, smallest);
    lemma_div_pos_is_pos(size, smallest);
    assert(factor > 0) by (nonlinear_arith)
        requires
            size == smallest * factor,
            size > 0,
            smallest > 0,
            factor >= 0,
    ;
    assert(pair == smallest_pair * factor) by (nonlinear_arith)
        requires
            pair == 2 * size,
            smallest_pair == 2 * smallest,
            size == smallest * factor,
    ;
    lemma_mod_mod(remaining, smallest_pair, factor);
}

/// What is left after the pairs of one size holds at most three pairs of a
/// size that is a third of it or more.
proof fn lemma_next_count(left: int, size: int, next: int)
    requires
        0 <= left < 2 * size,
        0 < next,
        size <= 3 * next,
    ensures
        left / (2 * next) <= 3,
{
    lemma_div_is_ordered(left, 6 * next, 2 * next);
    lemma_div_multiples_vanish(3, 2 * next);
    assert((2 * next) * 3 == 6 * next);
}

/// What a largest-first loading over graded sizes holds and weighs: entries of
/// at least one plate in the given unit, and all of `remaining` but what is
/// less than a pair of the smallest plates.
proof fn lemma_greedy_plates(
    sizes: Seq<u128>,
    unit_type: WeightUnitType,
    from: int,
    remaining: int,
)
    requires
        graded(sizes),
        0 <= from < sizes.len(),
        remaining >= 0,
        remaining / (2 * sizes[from]) <= i8::MAX,
    ensures
        plates_weight(greedy_plates(sizes, unit_type, from, remaining)) == remaining - remaining
            % (2 * sizes.last()),
        forall|i: int|
            0 <= i < greedy_plates(sizes, unit_type, from, remaining).len() ==> {
                let plate = #[trigger] greedy_plates(sizes, unit_type, from, remaining)[i];
                &&& plate.well_formed()
                &&& plate.weight.unit_type == unit_type
                &&& 0 < plate.weight.value <= sizes[from]
                &&& sizes.contains(plate.weight.value)
            },
        heaviest_first(greedy_plates(sizes, unit_type, from, remaining)),
    decreases sizes.len() - from,
{
    let pair: int = 2 * sizes[from];
    let count: int = remaining / pair;
    let left: int = remaining % pair;
    let rest = greedy_plates(sizes, unit_type, from + 1, left);
    let plates = greedy_plates(sizes, unit_type, from, remaining);
    assert(sizes[from] > 0 && sizes[from] % sizes.last() == 0);
    assert(sizes.last() > 0);
    lemma_take_pairs(sizes[from] as int, sizes.last() as int, remaining);
    if from == sizes.len() - 1 {
        assert(rest =~= Seq::<Plate>::empty());
        assert(left % pair == left) by {
            lemma_small_mod(left as nat, pair as nat);
        }
    } else {
        assert(sizes[from] <= 3 * sizes[from + 1]);
        lemma_next_count(left, sizes[from] as int, sizes[from + 1] as int);
        lemma_greedy_plates(sizes, unit_type, from + 1, left);
    }
    assert(plates_weight(rest) == left - remaining % (2 * sizes.last()));
    if remaining >= pair {
        let first = Plate {
            weight: WeightUnit { value: sizes[from], unit_type },
            quantity: count as i8,
        };
        assert(plates == seq![first] + rest);
        assert(plates[0] == first);
        assert(plates.drop_first() =~= rest);
        assert(first.quantity == count);
        assert(plates_weight(plates) == 2 * sizes[from] * count + plates_weight(rest));
        assert forall|i: int| 0 <= i < plates.len() implies {
            let plate = #[trigger] plates[i];
            &&& plate.well_formed()
            &&& plate.weight.unit_type == unit_type
            &&& 0 < plate.weight.value <= sizes[from]
            &&& sizes.contains(plate.weight.value)
        } by {
            if i > 0 {
                assert(plates[i] == rest[i - 1]);
            }
        }
        assert forall|i: int, j: int| 0 <= i < j < plates.len() implies (
        #[trigger] plates[j]).weight.value < (#[trigger] plates[i]).weight.value by {
            assert(plates[j] == rest[j - 1]);
            if i > 0 {
                assert(plates[i] == rest[i - 1]);
            }
        }
    } else {
        assert(plates == rest);
        assert(left == remaining);
    }
}

/// Less than 128 pairs of a size hold at most 127 of them.
proof fn lemma_count_fits(remaining: int, size: int)
    requires
        0 <= remaining < 128 * (2 * size),
        size > 0,
    ensures
        remaining / (2 * size) <= i8::MAX,
{
    lemma_div_is_ordered(remaining, 128 * (2 * size), 2 * size);
    lemma_div_multiples_vanish(128, 2 * size);
    assert((2 * size) * 128 == 128 * (2 * size));
    if remaining / (2 * size) == 128 {
        lemma_fundamental_div_mod(remaining, 2 * size);
        lemma_mod_bound(remaining, 2 * size);
    }
}

/// Plates of well-formed entries weigh nothing only when there are none.
proof fn lemma_plates_weight_sign(plates: Seq<Plate>)
    requires
        forall|i: int| 0 <= i < plates.len() ==> (#[trigger] plates[i]).well_formed(),
    ensures
        plates_weight(plates) >= 0,
        plates.len() > 0 ==> plates_weight(plates) >= 2 * plates[0].weight.value,
    decreases plates.len(),
{
    if plates.len() > 0 {
        let tail = plates.drop_first();
        assert forall|i: int| 0 <= i < tail.len() implies (#[trigger] tail[i]).well_formed() by {
            assert(tail[i] == plates[i + 1]);
        }
        lemma_plates_weight_sign(tail);
        let value: int = plates[0].weight.value as int;
        let quantity: int = plates[0].quantity as int;
        assert(plates[0].well_formed());
        assert(2 * value * quantity >= 2 * value) by (nonlinear_arith)
            requires
                value >= 0,
                quantity >= 1,
        ;
    }
}

/// For a target that the bar alone does not exceed, the plan's plates and the
/// bar together weigh as much as can be loaded without exceeding the target:
/// the target less what it has above the bar that no pair of the smallest
/// plates fills. The plan is empty where not even one such pair fits. Its
/// entries hold plates on hand, heavier sizes before lighter ones.
pub proof fn lemma_plan_weight(weight: WeightUnit)
    requires
        weight.value >= bar_weight_value(weight.unit_type),
        loadable(weight),
    ensures
        bar_weight_value(weight.unit_type) + plates_weight(plate_plan(weight)) == weight.value - (
        weight.value - bar_weight_value(weight.unit_type)) % (2 * smallest_plate(
            weight.unit_type,
        )),
        bar_weight_value(weight.unit_type) + plates_weight(plate_plan(weight)) <= weight.value,
        weight.value < bar_weight_value(weight.unit_type) + plates_weight(plate_plan(weight)) + 2
            * smallest_plate(weight.unit_type),
        plate_plan(weight).len() == 0 <==> weight.value < bar_weight_value(weight.unit_type) + 2
            * smallest_plate(weight.unit_type),
        from_inventory(plate_plan(weight), weight.unit_type),
        heaviest_first(plate_plan(weight)),
{
    let unit_type = weight.unit_type;
    let sizes = plate_sizes(unit_type);
    let remaining: int = weight.value - bar_weight_value(unit_type);
    let plan = plate_plan(weight);
    let smallest_pair: int = 2 * smallest_plate(unit_type);
    lemma_plate_sizes_graded(unit_type);
    assert(sizes[0] > 0);
    lemma_count_fits(remaining, sizes[0] as int);
    lemma_greedy_plates(sizes, unit_type, 0, remaining);
    lemma_plates_weight_sign(plan);
    lemma_mod_bound(remaining, smallest_pair);
    if remaining < smallest_pair {
        lemma_small_mod(remaining as nat, smallest_pair as nat);
        if plan.len() > 0 {
            assert(plan[0].weight.value > 0);
        }
    }
}

/// For a target of at least the bar and one pair of the smallest plates, the
/// loaded bar of the plan never exceeds the target and falls short of it by
/// less than one pair of the smallest plates, that is by less than 5 pounds or
/// 2.5 kilograms.
pub proof fn lemma_total_weight_of_plan(weight: WeightUnit)
    requires
        weight.value >= bar_weight_value(weight.unit_type) + 2 * smallest_plate(weight.unit_type),
        loadable(weight),
    ensures
        plate_plan(weight).len() > 0,
        total_weight(plate_plan(weight)) <= weight.value,
        weight.value - total_weight(plate_plan(weight)) < 2 * smallest_plate(weight.unit_type),
        weight.unit_type == WeightUnitType::Pounds ==> weight.value - total_weight(
            plate_plan(weight),
        ) < 5_000_000_000,
        weight.unit_type == WeightUnitType::Kilograms ==> weight.value - total_weight(
            plate_plan(weight),
        ) < 250_000_000_000_000_000,
{
    lemma_plan_weight(weight);
    assert(plate_plan(weight)[0].weight.unit_type == weight.unit_type);
}

/// Plates of sizes that are multiples of `smallest` weigh a whole number of
/// pairs of `smallest`; the number is returned.
proof fn lemma_weight_in_pairs(plates: Seq<Plate>, smallest: int) -> (pairs: int)
    requires
        smallest > 0,
        forall|i: int|
            0 <= i < plates.len() ==> (#[trigger] plates[i]).well_formed()
                && plates[i].weight.value as int % smallest == 0,
    ensures
        pairs >= 0,
        plates_weight(plates) == (2 * smallest) * pairs,
    decreases plates.len(),
{
    if plates.len() == 0 {
        0
    } else {
        let tail = plates.drop_first();
        assert forall|i: int| 0 <= i < tail.len() implies (#[trigger] tail[i]).well_formed()
            && tail[i].weight.value as int % smallest == 0 by {
            assert(tail[i] == plates[i + 1]);
        }
        let tail_pairs: int = lemma_weight_in_pairs(tail, smallest);
        let value: int = plates[0].weight.value as int;
        let quantity: int = plates[0].quantity as int;
        assert(plates[0].well_formed() && value % smallest == 0);
        let factor: int = value / smallest;
        lemma_fundamental_div_mod(value, smallest);
        lemma_div_pos_is_pos(value, smallest);
        assert(factor * quantity >= 0 && 2 * value * quantity == (2 * smallest) * (factor
            * quantity)) by (nonlinear_arith)
            requires
                value == smallest * factor,
                factor >= 0,
                quantity >= 1,
        ;
        assert((2 * smallest) * (factor * quantity) + (2 * smallest) * tail_pairs == (2
            * smallest) * (factor * quantity + tail_pairs)) by (nonlinear_arith);
        factor * quantity + tail_pairs
    }
}

/// No loading with plates on hand that does not exceed the target weighs more
/// than the plan's: the plan loads the largest weight not exceeding the target.
pub proof fn lemma_plan_is_heaviest(weight: WeightUnit, other: Seq<Plate>)
    requires
        weight.value >= bar_weight_value(weight.unit_type),
        loadable(weight),
        from_inventory(other, weight.unit_type),
        bar_weight_value(weight.unit_type) + plates_weight(other) <= weight.value,
    ensures
        plates_weight(other) <= plates_weight(plate_plan(weight)),
{
    let unit_type = weight.unit_type;
    let sizes = plate_sizes(unit_type);
    let smallest: int = smallest_plate(unit_type) as int;
    let pair: int = 2 * smallest;
    let remaining: int = weight.value - bar_weight_value(unit_type);
    lemma_plate_sizes_graded(unit_type);
    lemma_plan_weight(weight);
    assert forall|i: int| 0 <= i < other.len() implies (#[trigger] other[i]).well_formed()
        && other[i].weight.value as int % smallest == 0 by {
        assert(other[i].well_formed() && sizes.contains(other[i].weight.value));
        let j: int = choose|j: int| 0 <= j < sizes.len() && sizes[j] == other[i].weight.value;
        assert(sizes[j] % sizes.last() == 0);
    }
    let pairs: int = lemma_weight_in_pairs(other, smallest);
    // `pairs` pairs fit into `remaining`, so no more than its quotient by a pair.
    lemma_div_is_ordered(pair * pairs, remaining, pair);
    lemma_div_multiples_vanish(pairs, pair);
    lemma_fundamental_div_mod(remaining, pair);
    lemma_mul_inequality(pairs, remaining / pair, pair);
    lemma_mul_is_commutative(pair, pairs);
    lemma_mul_is_commutative(pair, remaining / pair);
}

/// The weight of the empty bar in the given unit.
pub fn bar_weight(unit_type: WeightUnitType) -> (bar: u128)
    ensures
        bar == bar_weight_value(unit_type),
{
    match unit_type {
        WeightUnitType::Pounds => 45_000_000_000,
        WeightUnitType::Kilograms => 2_000_000_000_000_000_000,
    }
}

/// The step between one loadable target and the next: a pair of the smallest
/// plates, 5 pounds or 2.5 kilograms.
pub fn weight_increment(unit_type: WeightUnitType) -> (step: u128)
    ensures
        step == 2 * smallest_plate(unit_type),
{
    match unit_type {
        WeightUnitType::Pounds => 5_000_000_000,
        WeightUnitType::Kilograms => 250_000_000_000_000_000,
    }
}

/// The least target in the given unit that is too heavy to plan for.
pub fn load_limit(unit_type: WeightUnitType) -> (limit: u128)
    ensures
        limit == load_limit_value(unit_type),
{
    match unit_type {
        WeightUnitType::Pounds => 11_565_000_000_000,
        WeightUnitType::Kilograms => 1_282_000_000_000_000_000_000,
    }
}

/// The plate sizes on hand in the given unit, heaviest first.
pub fn plate_weights(unit_type: WeightUnitType) -> (sizes: Vec<u128>)
    ensures
        sizes@ == plate_sizes(unit_type),
{
    match unit_type {
        WeightUnitType::Pounds => vec![
            45_000_000_000,
            35_000_000_000,
            25_000_000_000,
            10_000_000_000,
            5_000_000_000,
            2_500_000_000,
        ],
        WeightUnitType::Kilograms => vec![
            5_000_000_000_000_000_000,
            2_500_000_000_000_000_000,
            2_000_000_000_000_000_000,
            1_500_000_000_000_000_000,
            1_000_000_000_000_000_000,
            500_000_000_000_000_000,
            250_000_000_000_000_000,
            125_000_000_000_000_000,
        ],
    }
}

/// The plates to put on each side of the bar so that the loaded bar comes as
/// close to `weight` as it can without exceeding it, heaviest plates first.
/// A target below the weight of the bar gets no plates.
pub fn calculate_plates(weight: WeightUnit) -> (plates: Vec<Plate>)
    requires
        loadable(weight),
    ensures
        plates@ == plate_plan(weight),
        weight.value < bar_weight_value(weight.unit_type) ==> plates@.len() == 0,
        plates@.len() == 0 <==> weight.value < bar_weight_value(weight.unit_type) + 2
            * smallest_plate(weight.unit_type),
        from_inventory(plates@, weight.unit_type),
        heaviest_first(plates@),
        weight.value >= bar_weight_value(weight.unit_type) ==> {
            let loaded: int = bar_weight_value(weight.unit_type) + plates_weight(plates@);
            &&& loaded <= weight.value < loaded + 2 * smallest_plate(weight.unit_type)
            &&& loaded == weight.value - (weight.value - bar_weight_value(weight.unit_type)) % (2
                * smallest_plate(weight.unit_type))
        },
{
    let plate_weights = plate_weights(weight.unit_type);
    let bar = bar_weight(weight.unit_type);

    if weight.value < bar {
        return Vec::new();
    }
    let mut remaining_weight: u128 = weight.value - bar;
    let mut plates: Vec<Plate> = Vec::new();
    proof {
        lemma_plate_sizes_graded(weight.unit_type);
        lemma_count_fits(remaining_weight as int, plate_weights@[0] as int);
    }

    let mut i: usize = 0;
    while i < plate_weights.len()
        invariant
            i <= plate_weights.len(),
            graded(plate_weights@),
            plates@ + greedy_plates(
                plate_weights@,
                weight.unit_type,
                i as int,
                remaining_weight as int,
            ) == plate_plan(weight),
            i < plate_weights.len() ==> remaining_weight as int / (2 * plate_weights@[i as int])
                <= i8::MAX,
        decreases plate_weights.len() - i,
    {
        let plate_weight: u128 = plate_weights[i];
        let pair: u128 = 2 * plate_weight;
        let count: u128 = remaining_weight / pair;
        let left: u128 = remaining_weight % pair;
        proof {
            assert(plate_weight % plate_weights@.last() == 0);
            lemma_take_pairs(
                plate_weight as int,
                plate_weights@.last() as int,
                remaining_weight as int,
            );
            if i + 1 < plate_weights.len() {
                assert(plate_weights@[i as int] <= 3 * plate_weights@[i + 1]);
                lemma_next_count(
                    left as int,
                    plate_weight as int,
                    plate_weights@[i + 1] as int,
                );
            }
        }

        if count > 0 {
            let ghost before = plates@;
            let plate = Plate {
                weight: WeightUnit::new(plate_weight, weight.unit_type),
                quantity: count as i8,
            };
            plates.push(plate);
            proof {
                let rest = greedy_plates(
                    plate_weights@,
                    weight.unit_type,
                    i + 1,
                    left as int,
                );
                assert(plates@ + rest =~= before + (seq![plate] + rest));
            }
        }
        remaining_weight = left;
        i += 1;
    }

    proof {
        assert(plates@ =~= plate_plan(weight));
        lemma_plan_weight(weight);
    }
    plates
}

/// What the loaded bar weighs: the bar, in the unit of the first plate, and
/// twice each entry's plates, one set for each side.
pub fn calculate_total_weight(plates: Vec<Plate>) -> (total: WeightUnit)
    requires
        plates@.len() > 0,
        forall|i: int| 0 <= i < plates@.len() ==> (#[trigger] plates@[i]).well_formed(),
        total_weight(plates@) <= u128::MAX,
    ensures
        total.unit_type == plates@[0].weight.unit_type,
        total.value == total_weight(plates@),
        total.value == bar_weight_value(plates@[0].weight.unit_type) + plates_weight(plates@),
{
    let unit = plates[0].weight.unit_type;
    let mut total_value: u128 = bar_weight(unit);
    proof {
        assert(plates@.skip(0) =~= plates@);
    }

    let mut i: usize = 0;
    while i < plates.len()
        invariant
            i <= plates.len(),
            forall|j: int| 0 <= j < plates@.len() ==> (#[trigger] plates@[j]).well_formed(),
            total_value + plates_weight(plates@.skip(i as int)) == total_weight(plates@),
            total_weight(plates@) <= u128::MAX,
        decreases plates.len() - i,
    {
        let plate = plates[i];
        proof {
            let tail = plates@.skip(i as int);
            let rest = plates@.skip(i + 1);
            assert(tail[0] == plate);
            assert(tail.drop_first() =~= rest);
            assert forall|j: int| 0 <= j < rest.len() implies (#[trigger] rest[j]).well_formed() by {
                assert(rest[j] == plates@[i + 1 + j]);
            }
            lemma_plates_weight_sign(rest);
            assert(plate.well_formed());
            let value: int = plate.weight.value as int;
            let quantity: int = plate.quantity as int;
            assert(plates_weight(tail) == 2 * value * quantity + plates_weight(rest));
            assert(0 <= 2 * value <= 2 * value * quantity) by (nonlinear_arith)
                requires
                    value >= 0,
                    quantity >= 1,
            ;
        }
        let pair: u128 = 2 * plate.weight.value;
        let sides: u128 = pair * plate.quantity as u128;
        total_value = total_value + sides;
        i += 1;
    }

    proof {
        assert(plates@.skip(i as int) =~= Seq::<Plate>::empty());
    }
    WeightUnit::new(total_value, unit)
}

} // verus!
