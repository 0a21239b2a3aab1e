//! What holds of every meal that is assembled from a solved linear program.

use vstd::prelude::*;
use crate::number::{rounded, HALF, SCALE};
use crate::services::csv_reader::{column, serving_sizes, Nutrient, RecordView};
use crate::services::meal_calc::{
    chosen, dot, item_of, mass_of, meal_of, program_of, servings, total_of, MealView,
    NutrientTargets,
};

verus! {

/// The servings taken of each record: `servings` of its solved value.
pub open spec fn counts(values: Seq<u64>) -> Seq<u64> {
    Seq::new(values.len(), |i: int| servings(values[i]))
}

/// A solved value that is a whole number of servings.
pub open spec fn whole(v: u64) -> bool {
    v % SCALE == 0
}

/// Whether every value is a whole number of servings.
pub open spec fn all_whole(values: Seq<u64>) -> bool {
    forall|i: int| 0 <= i < values.len() ==> whole(#[trigger] values[i])
}

/// The sum of the first `n` coefficients.
pub open spec fn sum(coefficients: Seq<u64>, n: int) -> int
    decreases n,
{
    if n <= 0 {
        0
    } else {
        sum(coefficients, n - 1) + coefficients[n - 1]
    }
}

/// Whether a meal keeps the targets: calories, carbohydrates and sodium at most, protein
/// at least.
pub open spec fn keeps(meal: MealView, targets: NutrientTargets) -> bool {
    &&& meal.total_calories <= targets.calories
    &&& meal.total_protein >= targets.protein
    &&& meal.total_carbs <= targets.carbs
    &&& meal.total_sodium <= targets.sodium
}

/// A nutrient total of the items chosen is the sum, down the catalog, of the amount in one
/// serving times the servings taken.
pub proof fn lemma_total_is_dot(records: Seq<RecordView>, values: Seq<u64>, nutrient: Nutrient, n: int)
    requires
        0 <= n <= records.len(),
        n <= values.len(),
    ensures
        total_of(chosen(records, values, n), nutrient) == dot(
            column(records, nutrient),
            counts(values),
            n,
        ),
    decreases n,
{
    if n > 0 {
        lemma_total_is_dot(records, values, nutrient, n - 1);
        let before = chosen(records, values, n - 1);
        let c = column(records, nutrient)[n - 1];
        let taken = counts(values)[n - 1];
        if values[n - 1] >= HALF {
            let item = item_of(records[n - 1], values[n - 1]);
            assert(before.push(item).drop_last() =~= before);
        } else {
            assert(c * taken == 0) by (nonlinear_arith)
                requires
                    taken == 0,
            ;
        }
    }
}

/// The grams of the items chosen are the sum, down the catalog, of the grams in one
/// serving times the servings taken.
pub proof fn lemma_mass_is_dot(records: Seq<RecordView>, values: Seq<u64>, n: int)
    requires
        0 <= n <= records.len(),
        n <= values.len(),
    ensures
        mass_of(chosen(records, values, n)) == dot(serving_sizes(records), counts(values), n),
    decreases n,
{
    if n > 0 {
        lemma_mass_is_dot(records, values, n - 1);
        let before = chosen(records, values, n - 1);
        let c = serving_sizes(records)[n - 1];
        let taken = counts(values)[n - 1];
        if values[n - 1] >= HALF {
            let item = item_of(records[n - 1], values[n - 1]);
            assert(before.push(item).drop_last() =~= before);
        } else {
            assert(c * taken == 0) by (nonlinear_arith)
                requires
                    taken == 0,
            ;
        }
    }
}

/// Where every value is a whole number of servings, the servings taken are the values.
pub proof fn lemma_whole_dot(coefficients: Seq<u64>, values: Seq<u64>, n: int)
    requires
        0 <= n <= coefficients.len(),
        n <= values.len(),
        all_whole(values),
    ensures
        dot(coefficients, values, n) == SCALE * dot(coefficients, counts(values), n),
    decreases n,
{
    if n > 0 {
        lemma_whole_dot(coefficients, values, n - 1);
        let v = values[n - 1];
        let c = coefficients[n - 1];
        assert(c * v == SCALE * (c * servings(v))) by (nonlinear_arith)
            requires
                servings(v) * SCALE == v,
        ;
    }
}

/// A meal of whole servings keeps the targets that its solution keeps.
///
/// Where the solved values keep the constraints of the catalog's program, and each is a
/// whole number of servings, rounding changes nothing: the meal's calories,
/// carbohydrates and sodium are at most their targets, and its protein at least.
pub proof fn law_whole_servings_keep_targets(
    records: Seq<RecordView>,
    targets: NutrientTargets,
    values: Seq<u64>,
    objective: u64,
)
    requires
        program_of(records, targets).satisfied_by(values),
        all_whole(values),
    ensures
        keeps(meal_of(records, values, objective), targets),
{
    let program = program_of(records, targets);
    let n = records.len() as int;
    assert(program.constraints[0].holds(values));
    assert(program.constraints[1].holds(values));
    assert(program.constraints[2].holds(values));
    assert(program.constraints[3].holds(values));
    lemma_total_is_dot(records, values, Nutrient::Calories, n);
    lemma_total_is_dot(records, values, Nutrient::Protein, n);
    lemma_total_is_dot(records, values, Nutrient::Carbs, n);
    lemma_total_is_dot(records, values, Nutrient::Sodium, n);
    lemma_whole_dot(column(records, Nutrient::Calories), values, n);
    lemma_whole_dot(column(records, Nutrient::Protein), values, n);
    lemma_whole_dot(column(records, Nutrient::Carbs), values, n);
    lemma_whole_dot(column(records, Nutrient::Sodium), values, n);
}

/// The grams of a meal of whole servings are the grams of its items.
///
/// Where each solved value is a whole number of servings and the objective is the
/// program's objective at the values, the meal's grams are the sum over its items of
/// the grams in one serving times the servings.
pub proof fn law_whole_servings_mass(
    records: Seq<RecordView>,
    targets: NutrientTargets,
    values: Seq<u64>,
    objective: u64,
)
    requires
        values.len() == records.len(),
        all_whole(values),
        objective == program_of(records, targets).objective_at(values),
    ensures
        ({
            let meal = meal_of(records, values, objective);
            meal.total_grams == mass_of(meal.items)
        }),
{
    let n = records.len() as int;
    lemma_mass_is_dot(records, values, n);
    lemma_whole_dot(serving_sizes(records), values, n);
}

/// Every item of a meal stands for a solved value of at least half a serving, and is
/// taken as many times as that value rounds to, which is at least once. The index
/// returned is that of the item's record.
pub proof fn law_items_reach_half_a_serving(
    records: Seq<RecordView>,
    values: Seq<u64>,
    n: int,
    k: int,
) -> (i: int)
    requires
        0 <= n <= values.len(),
        0 <= k < chosen(records, values, n).len(),
    ensures
        0 <= i < n,
        values[i] >= HALF,
        chosen(records, values, n)[k] == item_of(records[i], values[i]),
        chosen(records, values, n)[k].count == rounded(values[i]),
        chosen(records, values, n)[k].count >= 1,
    decreases n,
{
    let before = chosen(records, values, n - 1);
    if values[n - 1] >= HALF && k == before.len() {
        n - 1
    } else {
        law_items_reach_half_a_serving(records, values, n - 1, k)
    }
}

/// With at most one serving of each food, a sum down the catalog is at most the sum of
/// the coefficients.
pub proof fn lemma_dot_within_sum(coefficients: Seq<u64>, values: Seq<u64>, n: int)
    requires
        0 <= n <= coefficients.len(),
        n <= values.len(),
        forall|i: int| 0 <= i < values.len() ==> #[trigger] values[i] <= SCALE,
    ensures
        dot(coefficients, values, n) <= SCALE * sum(coefficients, n),
    decreases n,
{
    if n > 0 {
        lemma_dot_within_sum(coefficients, values, n - 1);
        let c = coefficients[n - 1];
        let v = values[n - 1];
        assert(c * v <= SCALE * c) by (nonlinear_arith)
            requires
                0 <= c,
                0 <= v <= SCALE,
        ;
    }
}

/// A protein target beyond the catalog's protein is out of reach of one serving each.
///
/// Where the target for protein is more than the protein of all records together, no
/// assignment that takes each food at most once keeps the constraints: whatever keeps
/// them takes some food more than once.
pub proof fn law_protein_beyond_catalog(
    records: Seq<RecordView>,
    targets: NutrientTargets,
    values: Seq<u64>,
)
    requires
        targets.protein > sum(column(records, Nutrient::Protein), records.len() as int),
        forall|i: int| 0 <= i < values.len() ==> #[trigger] values[i] <= SCALE,
    ensures
        !program_of(records, targets).satisfied_by(values),
{
    let program = program_of(records, targets);
    if program.satisfied_by(values) {
        assert(program.constraints[1].holds(values));
        lemma_dot_within_sum(column(records, Nutrient::Protein), values, records.len() as int);
    }
}

/// The servings taken are within half a serving of the solved values: a sum down the
/// catalog over the servings taken is at most the sum over the solved values and half
/// of every coefficient.
pub proof fn lemma_rounded_dot_above(coefficients: Seq<u64>, values: Seq<u64>, n: int)
    requires
        0 <= n <= coefficients.len(),
        n <= values.len(),
    ensures
        SCALE * dot(coefficients, counts(values), n) <= dot(coefficients, values, n) + HALF * sum(
            coefficients,
            n,
        ),
    decreases n,
{
    if n > 0 {
        lemma_rounded_dot_above(coefficients, values, n - 1);
        let v = values[n - 1];
        let taken = counts(values)[n - 1];
        let c = coefficients[n - 1];
        assert(SCALE * (c * taken) <= c * v + HALF * c) by (nonlinear_arith)
            requires
                0 <= c,
                SCALE * taken <= v + HALF,
        ;
    }
}

/// A sum down the catalog over the solved values is at most the sum over the servings
/// taken and half of every coefficient.
pub proof fn lemma_rounded_dot_below(coefficients: Seq<u64>, values: Seq<u64>, n: int)
    requires
        0 <= n <= coefficients.len(),
        n <= values.len(),
    ensures
        dot(coefficients, values, n) <= SCALE * dot(coefficients, counts(values), n) + HALF * sum(
            coefficients,
            n,
        ),
    decreases n,
{
    if n > 0 {
        lemma_rounded_dot_below(coefficients, values, n - 1);
        let v = values[n - 1];
        let taken = counts(values)[n - 1];
        let c = coefficients[n - 1];
        assert(c * v <= SCALE * (c * taken) + HALF * c) by (nonlinear_arith)
            requires
                0 <= c,
                v <= SCALE * taken + HALF,
        ;
    }
}

/// Rounding moves a meal's totals by at most half a serving of every food.
///
/// Where the solved values keep the constraints of the catalog's program, the meal's
/// calories, carbohydrates and sodium pass their targets by no more than half of what
/// one serving of every record holds, and its protein falls short of its target by no
/// more than that.
pub proof fn law_rounding_moves_totals_by_half_servings(
    records: Seq<RecordView>,
    targets: NutrientTargets,
    values: Seq<u64>,
    objective: u64,
)
    requires
        program_of(records, targets).satisfied_by(values),
    ensures
        ({
            let meal = meal_of(records, values, objective);
            let n = records.len() as int;
            &&& SCALE * meal.total_calories <= SCALE * targets.calories + HALF * sum(
                column(records, Nutrient::Calories),
                n,
            )
            &&& SCALE * meal.total_carbs <= SCALE * targets.carbs + HALF * sum(
                column(records, Nutrient::Carbs),
                n,
            )
            &&& SCALE * meal.total_sodium <= SCALE * targets.sodium + HALF * sum(
                column(records, Nutrient::Sodium),
                n,
            )
            &&& SCALE * meal.total_protein + HALF * sum(
                column(records, Nutrient::Protein),
                n,
            ) >= SCALE * targets.protein
        }),
{
    let program = program_of(records, targets);
    let n = records.len() as int;
    assert(program.constraints[0].holds(values));
    assert(program.constraints[1].holds(values));
    assert(program.constraints[2].holds(values));
    assert(program.constraints[3].holds(values));
    lemma_total_is_dot(records, values, Nutrient::Calories, n);
    lemma_total_is_dot(records, values, Nutrient::Protein, n);
    lemma_total_is_dot(records, values, Nutrient::Carbs, n);
    lemma_total_is_dot(records, values, Nutrient::Sodium, n);
    lemma_rounded_dot_above(column(records, Nutrient::Calories), values, n);
    lemma_rounded_dot_above(column(records, Nutrient::Carbs), values, n);
    lemma_rounded_dot_above(column(records, Nutrient::Sodium), values, n);
    lemma_rounded_dot_below(column(records, Nutrient::Protein), values, n);
}

/// Rounding moves a meal's grams by at most half a serving of every food.
///
/// Where the objective is the program's objective at the solved values, the grams of
/// the meal's items are within half of every record's serving size of the objective.
/// The meal's grams are the objective rounded, so within half a gram of it.
pub proof fn law_rounding_moves_mass_by_half_servings(
    records: Seq<RecordView>,
    targets: NutrientTargets,
    values: Seq<u64>,
    objective: u64,
)
    requires
        values.len() == records.len(),
        objective == program_of(records, targets).objective_at(values),
    ensures
        ({
            let meal = meal_of(records, values, objective);
            let half_servings = HALF * sum(serving_sizes(records), records.len() as int);
            &&& SCALE * mass_of(meal.items) <= objective + half_servings
            &&& objective <= SCALE * mass_of(meal.items) + half_servings
            &&& SCALE * meal.total_grams <= objective + HALF
            &&& objective < SCALE * meal.total_grams + HALF
        }),
{
    let n = records.len() as int;
    lemma_mass_is_dot(records, values, n);
    lemma_rounded_dot_above(serving_sizes(records), values, n);
    lemma_rounded_dot_below(serving_sizes(records), values, n);
}

/// Where the coefficients sum to nothing, so does every sum down the catalog.
pub proof fn lemma_dot_of_nothing(coefficients: Seq<u64>, values: Seq<u64>, n: int)
    requires
        0 <= n <= coefficients.len(),
        sum(coefficients, n) == 0,
    ensures
        dot(coefficients, values, n) == 0,
    decreases n,
{
    if n > 0 {
        lemma_sum_not_negative(coefficients, n - 1);
        lemma_dot_of_nothing(coefficients, values, n - 1);
        let c = coefficients[n - 1];
        let v = values[n - 1];
        assert(c * v == 0) by (nonlinear_arith)
            requires
                c == 0,
        ;
    }
}

/// A sum of coefficients is not negative.
pub proof fn lemma_sum_not_negative(coefficients: Seq<u64>, n: int)
    ensures
        sum(coefficients, n) >= 0,
    decreases n,
{
    if n > 0 {
        lemma_sum_not_negative(coefficients, n - 1);
    }
}

/// A catalog without protein reaches no protein target.
///
/// Where no record holds any protein and the target for protein is more than nothing,
/// no assignment at all keeps the constraints, whatever the other targets are: the
/// program is infeasible.
pub proof fn law_no_protein_in_catalog(
    records: Seq<RecordView>,
    targets: NutrientTargets,
    values: Seq<u64>,
)
    requires
        sum(column(records, Nutrient::Protein), records.len() as int) == 0,
        targets.protein > 0,
    ensures
        !program_of(records, targets).satisfied_by(values),
{
    let program = program_of(records, targets);
    if program.satisfied_by(values) {
        assert(program.constraints[1].holds(values));
        lemma_dot_of_nothing(column(records, Nutrient::Protein), values, records.len() as int);
        assert(targets.protein * SCALE > 0) by (nonlinear_arith)
            requires
                targets.protein > 0,
        ;
    }
}

} // verus!
