//! From a catalog and nutrient targets to a linear program, and from its solution to a meal.

use vstd::prelude::*;
use vstd::string::StringExecFns;
use crate::error::Error;
use crate::number::{round_units, rounded, HALF, SCALE};
use crate::services::csv_reader::{column, serving_sizes, CsvReader, Nutrient, Record, RecordView};
use crate::text::{chars_of, fields, find_from, spells, trim_bounds, trimmed};

verus! {

/// The tags that a catalog may put on a food: allergens it holds and diets it suits.
#[derive(Debug, Clone, Copy, PartialEq, Eq, Structural)]
pub enum Allergens {
    /// No allergen at all; the catalog writes it as `None`.
    NoAllergens,
    Milk,
    Eggs,
    Peanuts,
    Soybean,
    Wheat,
    TreeNut,
    Shellfish,
    Fish,
    Sesame,
    Vegan,
    Vegetarian,
    GlutenFree,
    LactoseIntolerance,
}

impl Allergens {
    /// The tag that the catalog writes as `s`. The catalog writes `GlutenFree` as `Gluten`;
    /// every other tag is written as it is named.
    pub open spec fn named(s: Seq<char>) -> Option<Allergens> {
        if s == "None"@ {
            Some(Allergens::NoAllergens)
        } else if s == "Milk"@ {
            Some(Allergens::Milk)
        } else if s == "Eggs"@ {
            Some(Allergens::Eggs)
        } else if s == "Peanuts"@ {
            Some(Allergens::Peanuts)
        } else if s == "Soybean"@ {
            Some(Allergens::Soybean)
        } else if s == "Wheat"@ {
            Some(Allergens::Wheat)
        } else if s == "TreeNut"@ {
            Some(Allergens::TreeNut)
        } else if s == "Shellfish"@ {
            Some(Allergens::Shellfish)
        } else if s == "Fish"@ {
            Some(Allergens::Fish)
        } else if s == "Sesame"@ {
            Some(Allergens::Sesame)
        } else if s == "Vegan"@ {
            Some(Allergens::Vegan)
        } else if s == "Vegetarian"@ {
            Some(Allergens::Vegetarian)
        } else if s == "Gluten"@ {
            Some(Allergens::GlutenFree)
        } else if s == "LactoseIntolerance"@ {
            Some(Allergens::LactoseIntolerance)
        } else {
            None
        }
    }

    /// The variant's name.
    pub open spec fn name(self) -> Seq<char> {
        match self {
            Allergens::NoAllergens => "None"@,
            Allergens::Milk => "Milk"@,
            Allergens::Eggs => "Eggs"@,
            Allergens::Peanuts => "Peanuts"@,
            Allergens::Soybean => "Soybean"@,
            Allergens::Wheat => "Wheat"@,
            Allergens::TreeNut => "TreeNut"@,
            Allergens::Shellfish => "Shellfish"@,
            Allergens::Fish => "Fish"@,
            Allergens::Sesame => "Sesame"@,
            Allergens::Vegan => "Vegan"@,
            Allergens::Vegetarian => "Vegetarian"@,
            Allergens::GlutenFree => "GlutenFree"@,
            Allergens::LactoseIntolerance => "LactoseIntolerance"@,
        }
    }

    /// The tag that the characters of `v` from `from` up to `to` write.
    fn lookup(v: &Vec<char>, from: usize, to: usize) -> (r: Option<Allergens>)
        requires
            from <= to <= v@.len(),
        ensures
            r == Allergens::named(v@.subrange(from as int, to as int)),
    {
        if spells(v, from, to, "None") {
            Some(Allergens::NoAllergens)
        } else if spells(v, from, to, "Milk") {
            Some(Allergens::Milk)
        } else if spells(v, from, to, "Eggs") {
            Some(Allergens::Eggs)
        } else if spells(v, from, to, "Peanuts") {
            Some(Allergens::Peanuts)
        } else if spells(v, from, to, "Soybean") {
            Some(Allergens::Soybean)
        } else if spells(v, from, to, "Wheat") {
            Some(Allergens::Wheat)
        } else if spells(v, from, to, "TreeNut") {
            Some(Allergens::TreeNut)
        } else if spells(v, from, to, "Shellfish") {
            Some(Allergens::Shellfish)
        } else if spells(v, from, to, "Fish") {
            Some(Allergens::Fish)
        } else if spells(v, from, to, "Sesame") {
            Some(Allergens::Sesame)
        } else if spells(v, from, to, "Vegan") {
            Some(Allergens::Vegan)
        } else if spells(v, from, to, "Vegetarian") {
            Some(Allergens::Vegetarian)
        } else if spells(v, from, to, "Gluten") {
            Some(Allergens::GlutenFree)
        } else if spells(v, from, to, "LactoseIntolerance") {
            Some(Allergens::LactoseIntolerance)
        } else {
            None
        }
    }

    /// Reads one tag, written exactly as the catalog writes it.
    pub fn from_str(s: &str) -> (r: Result<Allergens, Error>)
        ensures
            r == match Allergens::named(s@) {
                Some(a) => Ok::<Allergens, Error>(a),
                None => Err(Error::InvalidAllergen),
            },
    {
        let v = chars_of(s);
        assert(v@.subrange(0, v@.len() as int) =~= s@);
        match Allergens::lookup(&v, 0, v.len()) {
            Some(a) => Ok(a),
            None => Err(Error::InvalidAllergen),
        }
    }

    /// The variant's name.
    pub fn as_str(&self) -> (r: &'static str)
        ensures
            r@ == self.name(),
    {
        match self {
            Allergens::NoAllergens => "None",
            Allergens::Milk => "Milk",
            Allergens::Eggs => "Eggs",
            Allergens::Peanuts => "Peanuts",
            Allergens::Soybean => "Soybean",
            Allergens::Wheat => "Wheat",
            Allergens::TreeNut => "TreeNut",
            Allergens::Shellfish => "Shellfish",
            Allergens::Fish => "Fish",
            Allergens::Sesame => "Sesame",
            Allergens::Vegan => "Vegan",
            Allergens::Vegetarian => "Vegetarian",
            Allergens::GlutenFree => "GlutenFree",
            Allergens::LactoseIntolerance => "LactoseIntolerance",
        }
    }

    /// The variant's name, as a string of its own.
    pub fn to_text(&self) -> (r: String)
        ensures
            r@ == self.name(),
    {
        String::from_str(self.as_str())
    }
}

/// The tag that the `i`-th piece of a field writes, white space around it aside.
pub open spec fn tag_at(pieces: Seq<Seq<char>>, i: int) -> Option<Allergens> {
    Allergens::named(trimmed(pieces[i]))
}

/// The tags that a catalog field lists: its pieces between commas, each with the
/// white space around it taken off. One piece that is no tag spoils the field.
pub open spec fn tags_of(field: Seq<char>) -> Option<Seq<Allergens>> {
    let pieces = fields(field, ',');
    if forall|i: int| 0 <= i < pieces.len() ==> (#[trigger] tag_at(pieces, i)) is Some {
        Some(Seq::new(pieces.len(), |i: int| tag_at(pieces, i)->0))
    } else {
        None
    }
}

/// Reads the tags that a catalog field lists.
pub fn parse_allergens(field: &str) -> (r: Result<Vec<Allergens>, Error>)
    ensures
        match tags_of(field@) {
            Some(tags) => r is Ok && r->Ok_0@ == tags,
            None => r == Err::<Vec<Allergens>, Error>(Error::InvalidAllergen),
        },
{
    let v = chars_of(field);
    let ghost pieces = fields(field@, ',');
    let mut out: Vec<Allergens> = Vec::new();
    let mut pos: usize = 0;
    let ghost mut done: Seq<Seq<char>> = Seq::empty();
    assert(v@.skip(0) =~= v@);
    loop
        invariant
            v@ == field@,
            pieces == fields(field@, ','),
            pos <= v@.len(),
            pieces == done + fields(v@.skip(pos as int), ','),
            out@.len() == done.len(),
            forall|j: int| 0 <= j < done.len() ==> tag_at(pieces, j) == Some(out@[j]),
        decreases v@.len() - pos,
    {
        let p = find_from(&v, pos, ',');
        let ghost rest = v@.skip(pos as int);
        let ghost piece = v@.subrange(pos as int, p as int);
        assert(rest.take(p - pos) =~= piece);
        assert(p < v@.len() ==> rest.skip(p - pos + 1) =~= v@.skip(p + 1));
        let (a, b) = trim_bounds(&v, pos, p);
        match Allergens::lookup(&v, a, b) {
            Some(tag) => {
                out.push(tag);
            },
            None => {
                assert(tag_at(pieces, done.len() as int) is None);
                return Err(Error::InvalidAllergen);
            },
        }
        proof {
            done = done.push(piece);
        }
        if p == v.len() {
            return Ok(out);
        }
        pos = p + 1;
    }
}

/// One food of a meal: a catalog record with the number of servings to take.
#[derive(Debug)]
pub struct FoodItem {
    pub name: String,
    /// Grams in one serving.
    pub serving_size: u32,
    /// Servings to take, at least one.
    pub count: u64,
    /// Thousandths of a kilocalorie in one serving.
    pub calories: u64,
    /// Thousandths of a gram of protein in one serving.
    pub protein: u64,
    /// Thousandths of a gram of carbohydrates in one serving.
    pub carbs: u64,
    /// Thousandths of a milligram of sodium in one serving.
    pub sodium: u64,
    pub allergens: Vec<Allergens>,
}

/// What a food item says, as mathematics.
pub ghost struct FoodItemView {
    pub name: Seq<char>,
    pub serving_size: u32,
    pub count: u64,
    pub calories: u64,
    pub protein: u64,
    pub carbs: u64,
    pub sodium: u64,
    pub allergens: Seq<Allergens>,
}

impl FoodItemView {
    /// Thousandths of nutrient `n` in one serving.
    pub open spec fn amount(self, n: Nutrient) -> u64 {
        match n {
            Nutrient::Calories => self.calories,
            Nutrient::Protein => self.protein,
            Nutrient::Carbs => self.carbs,
            Nutrient::Sodium => self.sodium,
        }
    }
}

impl View for FoodItem {
    type V = FoodItemView;

    open spec fn view(&self) -> FoodItemView {
        FoodItemView {
            name: self.name@,
            serving_size: self.serving_size,
            count: self.count,
            calories: self.calories,
            protein: self.protein,
            carbs: self.carbs,
            sodium: self.sodium,
            allergens: self.allergens@,
        }
    }
}

/// The views of a list of food items.
pub open spec fn item_views(items: Seq<FoodItem>) -> Seq<FoodItemView> {
    Seq::new(items.len(), |i: int| items[i]@)
}

/// The servings that a solved value of `v` thousandths stands for: none below half a
/// serving, else the nearest whole number.
pub open spec fn servings(v: u64) -> u64 {
    if v < HALF {
        0
    } else {
        rounded(v) as u64
    }
}

/// The whole grams nearest to an objective of `objective` thousandths of a gram.
pub open spec fn grams_of(objective: u64) -> u64 {
    rounded(objective) as u64
}

/// The food item that record `record` gives when its solved value is `v`.
pub open spec fn item_of(record: RecordView, v: u64) -> FoodItemView {
    FoodItemView {
        name: record.item,
        serving_size: record.serving_size,
        count: servings(v),
        calories: record.calories,
        protein: record.protein,
        carbs: record.carbs,
        sodium: record.sodium,
        allergens: tags_of(record.allergens)->0,
    }
}

/// The food items that the first `n` records give, in catalog order: one for each record
/// whose solved value is at least half a serving.
pub open spec fn chosen(records: Seq<RecordView>, values: Seq<u64>, n: int) -> Seq<FoodItemView>
    decreases n,
{
    if n <= 0 {
        Seq::empty()
    } else if values[n - 1] >= HALF {
        chosen(records, values, n - 1).push(item_of(records[n - 1], values[n - 1]))
    } else {
        chosen(records, values, n - 1)
    }
}

/// Thousandths of nutrient `n` in all the servings of `items`.
pub open spec fn total_of(items: Seq<FoodItemView>, n: Nutrient) -> int
    decreases items.len(),
{
    if items.len() == 0 {
        0
    } else {
        total_of(items.drop_last(), n) + items.last().amount(n) * items.last().count
    }
}

/// Grams of all the servings of `items`.
pub open spec fn mass_of(items: Seq<FoodItemView>) -> int
    decreases items.len(),
{
    if items.len() == 0 {
        0
    } else {
        mass_of(items.drop_last()) + items.last().serving_size * items.last().count
    }
}

/// A meal: the foods to take, and what they add up to.
#[derive(Debug)]
pub struct Meal {
    items: Vec<FoodItem>,
    total_calories: u128,
    total_protein: u128,
    total_carbs: u128,
    total_sodium: u128,
    total_grams: u64,
}

/// What a meal says, as mathematics. The nutrient totals are in thousandths.
pub ghost struct MealView {
    pub items: Seq<FoodItemView>,
    pub total_calories: int,
    pub total_protein: int,
    pub total_carbs: int,
    pub total_sodium: int,
    pub total_grams: u64,
}

impl MealView {
    /// Every item is taken at least once, and every nutrient total is the sum over the
    /// items of the amount in one serving times the servings.
    pub open spec fn consistent(self) -> bool {
        &&& forall|k: int| 0 <= k < self.items.len() ==> (#[trigger] self.items[k]).count >= 1
        &&& self.total_calories == total_of(self.items, Nutrient::Calories)
        &&& self.total_protein == total_of(self.items, Nutrient::Protein)
        &&& self.total_carbs == total_of(self.items, Nutrient::Carbs)
        &&& self.total_sodium == total_of(self.items, Nutrient::Sodium)
    }
}

impl View for Meal {
    type V = MealView;

    closed spec fn view(&self) -> MealView {
        MealView {
            items: item_views(self.items@),
            total_calories: self.total_calories as int,
            total_protein: self.total_protein as int,
            total_carbs: self.total_carbs as int,
            total_sodium: self.total_sodium as int,
            total_grams: self.total_grams,
        }
    }
}

impl Meal {
    /// The foods to take, in catalog order.
    pub fn items(&self) -> (r: &Vec<FoodItem>)
        ensures
            item_views(r@) == self@.items,
    {
        &self.items
    }

    /// Thousandths of a kilocalorie in the whole meal.
    pub fn total_calories(&self) -> (r: u128)
        ensures
            r == self@.total_calories,
    {
        self.total_calories
    }

    /// Thousandths of a gram of protein in the whole meal.
    pub fn total_protein(&self) -> (r: u128)
        ensures
            r == self@.total_protein,
    {
        self.total_protein
    }

    /// Thousandths of a gram of carbohydrates in the whole meal.
    pub fn total_carbs(&self) -> (r: u128)
        ensures
            r == self@.total_carbs,
    {
        self.total_carbs
    }

    /// Thousandths of a milligram of sodium in the whole meal.
    pub fn total_sodium(&self) -> (r: u128)
        ensures
            r == self@.total_sodium,
    {
        self.total_sodium
    }

    /// Grams of the whole meal, as the solved objective gives them.
    pub fn total_grams(&self) -> (r: u64)
        ensures
            r == self@.total_grams,
    {
        self.total_grams
    }
}

/// The bounds that a meal has to keep, in thousandths: calories, carbohydrates and
/// sodium at most, protein at least.
#[derive(Debug, Clone, Copy, PartialEq, Eq, Structural)]
pub struct NutrientTargets {
    pub calories: u64,
    pub protein: u64,
    pub carbs: u64,
    pub sodium: u64,
}

/// How the two sides of a constraint compare.
#[derive(Debug, Clone, Copy, PartialEq, Eq, Structural)]
pub enum ComparisonOp {
    /// The left side is at most the right side.
    Le,
    /// The left side is at least the right side.
    Ge,
}

impl NutrientTargets {
    /// The bound on nutrient `n`.
    pub open spec fn bound(self, n: Nutrient) -> u64 {
        match n {
            Nutrient::Calories => self.calories,
            Nutrient::Protein => self.protein,
            Nutrient::Carbs => self.carbs,
            Nutrient::Sodium => self.sodium,
        }
    }

    /// Which way nutrient `n` is bounded: protein from below, the others from above.
    pub open spec fn op(n: Nutrient) -> ComparisonOp {
        match n {
            Nutrient::Protein => ComparisonOp::Ge,
            _ => ComparisonOp::Le,
        }
    }

    /// The bound on nutrient `n`.
    pub fn bound_for(&self, n: Nutrient) -> (r: u64)
        ensures
            r == self.bound(n),
    {
        match n {
            Nutrient::Calories => self.calories,
            Nutrient::Protein => self.protein,
            Nutrient::Carbs => self.carbs,
            Nutrient::Sodium => self.sodium,
        }
    }

    /// Which way nutrient `n` is bounded.
    pub fn op_for(n: Nutrient) -> (r: ComparisonOp)
        ensures
            r == NutrientTargets::op(n),
    {
        match n {
            Nutrient::Protein => ComparisonOp::Ge,
            _ => ComparisonOp::Le,
        }
    }
}

/// One linear constraint: coefficients in thousandths for each serving, and a bound in
/// thousandths.
#[derive(Debug)]
pub struct Constraint {
    pub coefficients: Vec<u64>,
    pub op: ComparisonOp,
    pub bound: u64,
}

/// What a constraint says, as mathematics.
pub ghost struct ConstraintView {
    pub coefficients: Seq<u64>,
    pub op: ComparisonOp,
    pub bound: u64,
}

impl View for Constraint {
    type V = ConstraintView;

    open spec fn view(&self) -> ConstraintView {
        ConstraintView { coefficients: self.coefficients@, op: self.op, bound: self.bound }
    }
}

/// The sum of `coefficients[i] * x[i]` over the first `n` places.
pub open spec fn dot(coefficients: Seq<u64>, x: Seq<u64>, n: int) -> int
    decreases n,
{
    if n <= 0 {
        0
    } else {
        dot(coefficients, x, n - 1) + coefficients[n - 1] * x[n - 1]
    }
}

impl ConstraintView {
    /// Whether the assignment `x`, in thousandths of a serving, keeps the constraint.
    pub open spec fn holds(self, x: Seq<u64>) -> bool {
        match self.op {
            ComparisonOp::Le => dot(self.coefficients, x, self.coefficients.len() as int)
                <= self.bound * SCALE,
            ComparisonOp::Ge => dot(self.coefficients, x, self.coefficients.len() as int)
                >= self.bound * SCALE,
        }
    }
}

/// A linear program over one variable for each record, each at least zero and without an
/// upper bound: maximise the objective under the constraints.
#[derive(Debug)]
pub struct LinearProgram {
    /// Objective coefficients: the grams in one serving of each record.
    pub objective: Vec<u64>,
    pub constraints: Vec<Constraint>,
}

/// What a linear program says, as mathematics.
pub ghost struct LinearProgramView {
    pub objective: Seq<u64>,
    pub constraints: Seq<ConstraintView>,
}

impl View for LinearProgram {
    type V = LinearProgramView;

    open spec fn view(&self) -> LinearProgramView {
        LinearProgramView {
            objective: self.objective@,
            constraints: Seq::new(self.constraints@.len(), |k: int| self.constraints@[k]@),
        }
    }
}

impl LinearProgramView {
    /// Whether `x` gives every variable a value and keeps every constraint.
    pub open spec fn satisfied_by(self, x: Seq<u64>) -> bool {
        &&& x.len() == self.objective.len()
        &&& forall|k: int| 0 <= k < self.constraints.len() ==> (#[trigger] self.constraints[k]).holds(x)
    }

    /// The objective at `x`: thousandths of a gram.
    pub open spec fn objective_at(self, x: Seq<u64>) -> int {
        dot(self.objective, x, self.objective.len() as int)
    }
}

/// The constraint that bounds nutrient `n`.
pub open spec fn constraint_of(records: Seq<RecordView>, targets: NutrientTargets, n: Nutrient)
    -> ConstraintView {
    ConstraintView {
        coefficients: column(records, n),
        op: NutrientTargets::op(n),
        bound: targets.bound(n),
    }
}

/// The linear program of a catalog and targets: the most grams of food that keep the
/// bounds on calories, protein, carbohydrates and sodium, in this order.
pub open spec fn program_of(records: Seq<RecordView>, targets: NutrientTargets) -> LinearProgramView {
    LinearProgramView {
        objective: serving_sizes(records),
        constraints: seq![
            constraint_of(records, targets, Nutrient::Calories),
            constraint_of(records, targets, Nutrient::Protein),
            constraint_of(records, targets, Nutrient::Carbs),
            constraint_of(records, targets, Nutrient::Sodium),
        ],
    }
}

/// A solved assignment: thousandths of a serving for each record, and the objective
/// reached, in thousandths of a gram.
#[derive(Debug)]
pub struct Solution {
    pub values: Vec<u64>,
    pub objective: u64,
}

/// How a solver's run on a linear program ended.
#[derive(Debug)]
pub enum SolverOutcome {
    /// The program has an optimum, and this is one.
    Optimal(Solution),
    /// No assignment keeps all the constraints.
    Infeasible,
    /// The objective grows without limit.
    Unbounded,
}

/// The meal that a solution stands for.
pub open spec fn meal_of(records: Seq<RecordView>, values: Seq<u64>, objective: u64) -> MealView {
    let items = chosen(records, values, records.len() as int);
    MealView {
        items,
        total_calories: total_of(items, Nutrient::Calories),
        total_protein: total_of(items, Nutrient::Protein),
        total_carbs: total_of(items, Nutrient::Carbs),
        total_sodium: total_of(items, Nutrient::Sodium),
        total_grams: grams_of(objective),
    }
}

/// Whether the allergen field of the `i`-th record lists known tags only.
pub open spec fn tagged(records: Seq<RecordView>, i: int) -> bool {
    tags_of(records[i].allergens) is Some
}

/// Whether the allergen field of every record lists known tags only.
pub open spec fn all_tagged(records: Seq<RecordView>) -> bool {
    forall|i: int| 0 <= i < records.len() ==> #[trigger] tagged(records, i)
}

/// The most that a nutrient total of a meal can be, in thousandths.
pub const TOTAL_MAX: u128 = 0xffff_ffff_ffff_ffff_ffff_ffff_ffff_ffff;

/// Whether every nutrient total of `items` can be held.
pub open spec fn fits(items: Seq<FoodItemView>) -> bool {
    &&& total_of(items, Nutrient::Calories) <= TOTAL_MAX
    &&& total_of(items, Nutrient::Protein) <= TOTAL_MAX
    &&& total_of(items, Nutrient::Carbs) <= TOTAL_MAX
    &&& total_of(items, Nutrient::Sodium) <= TOTAL_MAX
}

/// What a solver's outcome comes to for a catalog: a meal, or the reason for none.
///
/// An unknown allergen tag in any row fails the catalog, whatever the solver found.
/// Then a program without an optimum gives no meal. A solution must give each record
/// one value, and values whose nutrient totals can be held.
pub open spec fn assembled(records: Seq<RecordView>, outcome: SolverOutcome) -> Result<
    MealView,
    Error,
> {
    if !all_tagged(records) {
        Err(Error::InvalidAllergen)
    } else {
        match outcome {
            SolverOutcome::Optimal(solution) => if solution.values@.len() == records.len()
                && fits(chosen(records, solution.values@, records.len() as int)) {
                Ok(meal_of(records, solution.values@, solution.objective))
            } else {
                Err(Error::InvalidArgument)
            },
            SolverOutcome::Infeasible => Err(Error::ImpossibleSolution),
            SolverOutcome::Unbounded => Err(Error::ImpossibleSolution),
        }
    }
}

/// Adds `count` servings of `amount` to a total, where the sum can be held.
fn grow(total: u128, amount: u64, count: u64) -> (r: Option<u128>)
    ensures
        r == if total + amount * count <= u128::MAX {
            Some((total + amount * count) as u128)
        } else {
            None
        },
{
    assert(amount * count <= 0xffff_ffff_ffff_ffff * 0xffff_ffff_ffff_ffff) by (nonlinear_arith)
        requires
            0 <= amount <= 0xffff_ffff_ffff_ffff,
            0 <= count <= 0xffff_ffff_ffff_ffff,
    ;
    let product: u128 = amount as u128 * count as u128;
    if total > u128::MAX - product {
        None
    } else {
        Some(total + product)
    }
}

/// The total of a nutrient never shrinks as more of the catalog is taken in.
pub proof fn lemma_total_grows(
    records: Seq<RecordView>,
    values: Seq<u64>,
    nutrient: Nutrient,
    i: int,
    n: int,
)
    requires
        0 <= i <= n,
    ensures
        total_of(chosen(records, values, i), nutrient) <= total_of(
            chosen(records, values, n),
            nutrient,
        ),
    decreases n - i,
{
    if i < n {
        lemma_total_grows(records, values, nutrient, i, n - 1);
        let before = chosen(records, values, n - 1);
        if values[n - 1] >= HALF {
            let item = item_of(records[n - 1], values[n - 1]);
            assert(before.push(item).drop_last() =~= before);
            assert(item.amount(nutrient) * item.count >= 0) by (nonlinear_arith)
                requires
                    item.amount(nutrient) >= 0,
                    item.count >= 0,
            ;
        }
    }
}

/// Builds the linear program of a catalog and nutrient targets, and the meal that its
/// solution stands for.
#[derive(Debug)]
pub struct MealCalculator {
    reader: CsvReader,
    targets: NutrientTargets,
}

impl MealCalculator {
    /// The records of the catalog.
    pub closed spec fn catalog(&self) -> Seq<RecordView> {
        self.reader@
    }

    /// The bounds that the meal has to keep.
    pub closed spec fn targets(&self) -> NutrientTargets {
        self.targets
    }

    /// A calculator for the catalog `reader` and the targets given, each in thousandths:
    /// protein at least, carbohydrates, sodium and calories at most.
    pub fn new(reader: CsvReader, protein: u64, carbs: u64, sodium: u64, calories: u64) -> (r: Self)
        ensures
            r.catalog() == reader@,
            r.targets() == (NutrientTargets { calories, protein, carbs, sodium }),
    {
        MealCalculator { reader, targets: NutrientTargets { calories, protein, carbs, sodium } }
    }

    /// The catalog.
    pub fn reader(&self) -> (r: &CsvReader)
        ensures
            r@ == self.catalog(),
    {
        &self.reader
    }

    /// The constraint that bounds nutrient `n`.
    fn constraint(&self, n: Nutrient) -> (r: Constraint)
        ensures
            r@ == constraint_of(self.catalog(), self.targets(), n),
    {
        Constraint {
            coefficients: self.reader.get_amounts(n),
            op: NutrientTargets::op_for(n),
            bound: self.targets.bound_for(n),
        }
    }

    /// The linear program to solve: one variable for each record, counted in servings.
    pub fn get_problem(&self) -> (r: LinearProgram)
        ensures
            r@ == program_of(self.catalog(), self.targets()),
    {
        let mut constraints: Vec<Constraint> = Vec::new();
        constraints.push(self.constraint(Nutrient::Calories));
        constraints.push(self.constraint(Nutrient::Protein));
        constraints.push(self.constraint(Nutrient::Carbs));
        constraints.push(self.constraint(Nutrient::Sodium));
        let program = LinearProgram { objective: self.reader.get_serving_sizes(), constraints };
        assert(program@.constraints =~= program_of(self.catalog(), self.targets()).constraints);
        program
    }

    /// Checks that the allergen field of every record lists known tags only.
    fn check_allergens(&self) -> (r: bool)
        ensures
            r == all_tagged(self.catalog()),
    {
        let mut i: usize = 0;
        while i < self.reader.records.len()
            invariant
                i <= self.reader.records@.len(),
                forall|j: int| 0 <= j < i ==> tagged(self.reader@, j),
            decreases self.reader.records@.len() - i,
        {
            match parse_allergens(self.reader.records[i].allergens.as_str()) {
                Ok(_) => {},
                Err(_) => {
                    assert(!tagged(self.reader@, i as int));
                    return false;
                },
            }
            i += 1;
        }
        true
    }

    /// Assembles the meal that a solver's outcome stands for.
    ///
    /// A food is taken where its solved value is at least half a serving, as many times
    /// as the value rounds to. The nutrient totals are summed over the servings taken;
    /// the grams are the solved objective, rounded.
    pub fn calculate_meal(&self, outcome: &SolverOutcome) -> (r: Result<Meal, Error>)
        ensures
            match r {
                Ok(meal) => assembled(self.catalog(), *outcome) == Ok::<MealView, Error>(meal@)
                    && meal@.consistent(),
                Err(e) => assembled(self.catalog(), *outcome) == Err::<MealView, Error>(e),
            },
            !all_tagged(self.catalog()) ==> r == Err::<Meal, Error>(Error::InvalidAllergen),
    {
        if !self.check_allergens() {
            return Err(Error::InvalidAllergen);
        }
        let solution = match outcome {
            SolverOutcome::Optimal(solution) => solution,
            SolverOutcome::Infeasible => {
                return Err(Error::ImpossibleSolution);
            },
            SolverOutcome::Unbounded => {
                return Err(Error::ImpossibleSolution);
            },
        };
        let n = self.reader.records.len();
        if solution.values.len() != n {
            return Err(Error::InvalidArgument);
        }
        let ghost records = self.reader@;
        let ghost values = solution.values@;
        let mut items: Vec<FoodItem> = Vec::new();
        let mut total_calories: u128 = 0;
        let mut total_protein: u128 = 0;
        let mut total_carbs: u128 = 0;
        let mut total_sodium: u128 = 0;
        let mut i: usize = 0;
        while i < n
            invariant
                i <= n,
                n == self.reader.records@.len(),
                n == solution.values@.len(),
                outcome is Optimal,
                outcome->Optimal_0 == *solution,
                records == self.reader@,
                values == solution.values@,
                all_tagged(records),
                items@.len() <= i,
                item_views(items@) == chosen(records, values, i as int),
                forall|k: int| 0 <= k < items@.len() ==> (#[trigger] item_views(items@)[k]).count >= 1,
                total_calories == total_of(item_views(items@), Nutrient::Calories),
                total_protein == total_of(item_views(items@), Nutrient::Protein),
                total_carbs == total_of(item_views(items@), Nutrient::Carbs),
                total_sodium == total_of(item_views(items@), Nutrient::Sodium),
            decreases n - i,
        {
            let v: u64 = solution.values[i];
            if v >= HALF {
                let record: &Record = &self.reader.records[i];
                assert(tagged(records, i as int));
                // Every field was checked above, so this one reads.
                let allergens: Vec<Allergens> = match parse_allergens(record.allergens.as_str()) {
                    Ok(allergens) => allergens,
                    Err(e) => {
                        return Err(e);
                    },
                };
                let count: u64 = round_units(v);
                let item = FoodItem {
                    name: record.item.clone(),
                    serving_size: record.serving_size,
                    count,
                    calories: record.calories,
                    protein: record.protein,
                    carbs: record.carbs,
                    sodium: record.sodium,
                    allergens,
                };
                let ghost before = item_views(items@);
                let ghost after = before.push(item_of(records[i as int], v));
                assert(after.drop_last() =~= before);
                proof {
                    lemma_total_grows(records, values, Nutrient::Calories, i + 1, n as int);
                    lemma_total_grows(records, values, Nutrient::Protein, i + 1, n as int);
                    lemma_total_grows(records, values, Nutrient::Carbs, i + 1, n as int);
                    lemma_total_grows(records, values, Nutrient::Sodium, i + 1, n as int);
                }
                let sums = (
                    grow(total_calories, item.calories, count),
                    grow(total_protein, item.protein, count),
                    grow(total_carbs, item.carbs, count),
                    grow(total_sodium, item.sodium, count),
                );
                match sums {
                    (Some(calories), Some(protein), Some(carbs), Some(sodium)) => {
                        total_calories = calories;
                        total_protein = protein;
                        total_carbs = carbs;
                        total_sodium = sodium;
                    },
                    _ => {
                        return Err(Error::InvalidArgument);
                    },
                }
                items.push(item);
                assert(item_views(items@) =~= after);
            }
            i += 1;
        }
        let meal = Meal {
            items,
            total_calories,
            total_protein,
            total_carbs,
            total_sodium,
            total_grams: round_units(solution.objective),
        };
        Ok(meal)
    }
}

} // verus!
