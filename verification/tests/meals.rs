use meal_planner::error::Error;
use meal_planner::services::csv_reader::{CsvReader, Record};
use meal_planner::services::meal_calc::{
    parse_allergens, Allergens, ComparisonOp, Meal, MealCalculator, Solution, SolverOutcome,
};

fn record(item: &str, allergens: &str, serving_size: u32, amounts: [u64; 4]) -> Record {
    Record {
        item: item.to_string(),
        allergens: allergens.to_string(),
        serving_size,
        calories: amounts[0],
        protein: amounts[1],
        carbs: amounts[2],
        sodium: amounts[3],
    }
}

fn pantry() -> CsvReader {
    CsvReader {
        records: vec![
            record("Chicken", "None", 100, [165_000, 31_000, 0, 74_000]),
            record("Rice", "Vegan, Gluten", 100, [130_000, 2_700, 28_000, 1_000]),
            record("Yoghurt", "Milk,Vegetarian", 150, [92_500, 5_250, 7_000, 70_000]),
        ],
    }
}

fn calculator(reader: CsvReader) -> MealCalculator {
    MealCalculator::new(reader, 40_000, 100_000, 1_000_000, 800_000)
}

fn optimal(values: &[u64], objective: u64) -> SolverOutcome {
    SolverOutcome::Optimal(Solution { values: values.to_vec(), objective })
}

fn meal(reader: CsvReader, values: &[u64], objective: u64) -> Meal {
    calculator(reader).calculate_meal(&optimal(values, objective)).unwrap()
}

fn meal_of_values(values: &[u64]) -> Meal {
    meal(pantry(), values, 0)
}

fn failure(reader: CsvReader, outcome: &SolverOutcome) -> Error {
    match calculator(reader).calculate_meal(outcome) {
        Ok(meal) => panic!("a meal of {} items", meal.items().len()),
        Err(e) => e,
    }
}

#[test]
fn allergen_names_are_read() {
    let names = [
        ("None", Allergens::NoAllergens),
        ("Milk", Allergens::Milk),
        ("Eggs", Allergens::Eggs),
        ("Peanuts", Allergens::Peanuts),
        ("Soybean", Allergens::Soybean),
        ("Wheat", Allergens::Wheat),
        ("TreeNut", Allergens::TreeNut),
        ("Shellfish", Allergens::Shellfish),
        ("Fish", Allergens::Fish),
        ("Sesame", Allergens::Sesame),
        ("Vegan", Allergens::Vegan),
        ("Vegetarian", Allergens::Vegetarian),
        ("Gluten", Allergens::GlutenFree),
        ("LactoseIntolerance", Allergens::LactoseIntolerance),
    ];
    for (name, tag) in names {
        assert_eq!(Allergens::from_str(name), Ok(tag), "{name}");
    }
}

#[test]
fn allergen_names_are_exact() {
    for name in ["", "milk", "MILK", " Milk", "Milk ", "Mil", "Milks", "GlutenFree", "Bogus", "None,"] {
        assert_eq!(Allergens::from_str(name), Err(Error::InvalidAllergen), "{name:?}");
    }
}

#[test]
fn allergen_text_is_the_variant_name() {
    assert_eq!(Allergens::NoAllergens.as_str(), "None");
    assert_eq!(Allergens::Milk.as_str(), "Milk");
    assert_eq!(Allergens::TreeNut.as_str(), "TreeNut");
    assert_eq!(Allergens::GlutenFree.as_str(), "GlutenFree");
    assert_eq!(Allergens::LactoseIntolerance.to_text(), "LactoseIntolerance".to_string());
    assert_eq!(Allergens::Vegan.to_text(), "Vegan".to_string());
}

#[test]
fn allergen_names_read_back_but_for_gluten() {
    for tag in [
        Allergens::NoAllergens,
        Allergens::Milk,
        Allergens::Eggs,
        Allergens::Peanuts,
        Allergens::Soybean,
        Allergens::Wheat,
        Allergens::TreeNut,
        Allergens::Shellfish,
        Allergens::Fish,
        Allergens::Sesame,
        Allergens::Vegan,
        Allergens::Vegetarian,
        Allergens::LactoseIntolerance,
    ] {
        assert_eq!(Allergens::from_str(tag.as_str()), Ok(tag));
    }
    assert_eq!(Allergens::from_str(Allergens::GlutenFree.as_str()), Err(Error::InvalidAllergen));
}

#[test]
fn allergen_fields_are_split_and_trimmed() {
    assert_eq!(parse_allergens("None"), Ok(vec![Allergens::NoAllergens]));
    assert_eq!(parse_allergens("Milk,Eggs"), Ok(vec![Allergens::Milk, Allergens::Eggs]));
    assert_eq!(
        parse_allergens(" Milk ,\tEggs,  Gluten\u{a0}"),
        Ok(vec![Allergens::Milk, Allergens::Eggs, Allergens::GlutenFree])
    );
    assert_eq!(parse_allergens("Fish,Fish"), Ok(vec![Allergens::Fish, Allergens::Fish]));
}

#[test]
fn allergen_fields_fail_on_one_unknown_tag() {
    for field in ["Milk,Bogus", "Bogus", "", " ", "Milk,", ",Milk", "Milk,,Eggs", "Milk;Eggs", "Milk Eggs"] {
        assert_eq!(parse_allergens(field), Err(Error::InvalidAllergen), "{field:?}");
    }
}

#[test]
fn meal_takes_what_reaches_half_a_serving() {
    let meal = meal(pantry(), &[499, 500, 0], 0);
    assert_eq!(meal.items().len(), 1);
    assert_eq!(meal.items()[0].name, "Rice");
    assert_eq!(meal.items()[0].count, 1);
}

#[test]
fn meal_rounds_to_the_nearest_serving() {
    let meal = meal(pantry(), &[1_499, 1_500, 2_500], 0);
    let counts: Vec<u64> = meal.items().iter().map(|item| item.count).collect();
    assert_eq!(counts, vec![1, 2, 3]);
}

#[test]
fn meal_counts_have_no_cap() {
    let meal = meal(pantry(), &[254_500, 255_500, 300_000], 0);
    let counts: Vec<u64> = meal.items().iter().map(|item| item.count).collect();
    assert_eq!(counts, vec![255, 256, 300]);
    let meal = meal_of_values(&[333_333, 4_294_967_296_499, u64::MAX]);
    let counts: Vec<u64> = meal.items().iter().map(|item| item.count).collect();
    assert_eq!(counts, vec![333, 4_294_967_296, 18_446_744_073_709_552]);
}

#[test]
fn meal_of_many_servings_of_a_light_food() {
    // 100 g of 6 kcal under 2000 kcal: 333.333 servings, 33333.3 g.
    let reader =
        CsvReader { records: vec![record("Cucumber", "Vegan", 100, [6_000, 300, 1_000, 2_000])] };
    let meal = meal(reader, &[333_333], 33_333_300);
    assert_eq!(meal.items()[0].count, 333);
    assert_eq!(meal.total_calories(), 333 * 6_000);
    assert_eq!(meal.total_protein(), 333 * 300);
    assert_eq!(meal.total_grams(), 33_333);
    let mass: u64 = meal.items().iter().map(|item| item.serving_size as u64 * item.count).sum();
    assert_eq!(mass, 33_300);
}

#[test]
fn meal_items_carry_their_record() {
    let meal = meal(pantry(), &[2_034, 3_571, 700], 560_600);
    assert_eq!(meal.items().len(), 3);
    let rice = &meal.items()[1];
    assert_eq!(rice.name, "Rice");
    assert_eq!(rice.serving_size, 100);
    assert_eq!(rice.count, 4);
    assert_eq!(rice.calories, 130_000);
    assert_eq!(rice.protein, 2_700);
    assert_eq!(rice.carbs, 28_000);
    assert_eq!(rice.sodium, 1_000);
    assert_eq!(rice.allergens, vec![Allergens::Vegan, Allergens::GlutenFree]);
    assert_eq!(meal.items()[0].name, "Chicken");
    assert_eq!(meal.items()[0].allergens, vec![Allergens::NoAllergens]);
    assert_eq!(meal.items()[2].name, "Yoghurt");
    assert_eq!(meal.items()[2].allergens, vec![Allergens::Milk, Allergens::Vegetarian]);
}

#[test]
fn meal_totals_sum_servings() {
    let meal = meal(pantry(), &[2_034, 3_571, 700], 560_600);
    assert_eq!(meal.total_calories(), 2 * 165_000 + 4 * 130_000 + 92_500);
    assert_eq!(meal.total_protein(), 2 * 31_000 + 4 * 2_700 + 5_250);
    assert_eq!(meal.total_carbs(), 4 * 28_000 + 7_000);
    assert_eq!(meal.total_sodium(), 2 * 74_000 + 4 * 1_000 + 70_000);
}

#[test]
fn meal_totals_skip_what_is_left_out() {
    let meal = meal(pantry(), &[499, 0, 1_000], 150_000);
    assert_eq!(meal.items().len(), 1);
    assert_eq!(meal.total_calories(), 92_500);
    assert_eq!(meal.total_protein(), 5_250);
    assert_eq!(meal.total_carbs(), 7_000);
    assert_eq!(meal.total_sodium(), 70_000);
    assert_eq!(meal.total_grams(), 150);
}

#[test]
fn meal_totals_hold_the_largest_amounts() {
    let reader = CsvReader {
        records: vec![
            record("A", "None", u32::MAX, [u64::MAX; 4]),
            record("B", "None", u32::MAX, [u64::MAX; 4]),
        ],
    };
    let meal = meal(reader, &[u64::MAX, u64::MAX], u64::MAX);
    let most = 2 * 18_446_744_073_709_552 * u64::MAX as u128;
    assert_eq!(meal.total_calories(), most);
    assert_eq!(meal.total_protein(), most);
    assert_eq!(meal.total_carbs(), most);
    assert_eq!(meal.total_sodium(), most);
    assert_eq!(meal.total_grams(), 18_446_744_073_709_552);
}

#[test]
fn meal_fails_where_a_total_cannot_be_held() {
    // Each item adds a little more than a thousandth of 2^128.
    let many = |n: usize, amounts: [u64; 4]| CsvReader {
        records: (0..n).map(|_| record("A", "None", 1, amounts)).collect(),
    };
    let values = vec![u64::MAX; 1100];
    for place in 0..4 {
        let mut amounts = [1u64; 4];
        amounts[place] = u64::MAX;
        assert_eq!(
            failure(many(1100, amounts), &optimal(&values, 0)),
            Error::InvalidArgument,
            "{place}"
        );
    }
    assert_eq!(
        failure(many(1000, [u64::MAX; 4]), &optimal(&values[..1000], 0)),
        Error::InvalidArgument
    );
    let meal = meal(many(999, [u64::MAX; 4]), &values[..999], 0);
    assert_eq!(meal.items().len(), 999);
    assert_eq!(meal.total_calories(), 999 * 18_446_744_073_709_552 * u64::MAX as u128);
}

#[test]
fn meal_grams_are_the_objective_rounded() {
    assert_eq!(meal(pantry(), &[0, 0, 0], 0).total_grams(), 0);
    assert_eq!(meal(pantry(), &[0, 0, 0], 499).total_grams(), 0);
    assert_eq!(meal(pantry(), &[0, 0, 0], 500).total_grams(), 1);
    assert_eq!(meal(pantry(), &[0, 0, 0], 560_600).total_grams(), 561);
    assert_eq!(meal(pantry(), &[0, 0, 0], 560_499).total_grams(), 560);
    assert_eq!(meal(pantry(), &[0, 0, 0], 4_294_967_295_499).total_grams(), 4_294_967_295);
    assert_eq!(meal(pantry(), &[0, 0, 0], 4_294_967_295_500).total_grams(), 4_294_967_296);
    assert_eq!(meal(pantry(), &[0, 0, 0], u64::MAX).total_grams(), 18_446_744_073_709_552);
}

#[test]
fn meal_of_nothing_is_empty() {
    let meal = meal(pantry(), &[0, 0, 0], 0);
    assert!(meal.items().is_empty());
    assert_eq!(meal.total_calories(), 0);
    assert_eq!(meal.total_protein(), 0);
    assert_eq!(meal.total_carbs(), 0);
    assert_eq!(meal.total_sodium(), 0);
    let empty = calculator(CsvReader { records: Vec::new() });
    let meal = empty.calculate_meal(&optimal(&[], 0)).unwrap();
    assert!(meal.items().is_empty());
    assert_eq!(meal.total_grams(), 0);
}

#[test]
fn meal_fails_where_the_program_has_no_optimum() {
    assert_eq!(failure(pantry(), &SolverOutcome::Infeasible), Error::ImpossibleSolution);
    assert_eq!(failure(pantry(), &SolverOutcome::Unbounded), Error::ImpossibleSolution);
}

#[test]
fn meal_needs_one_value_for_each_record() {
    assert_eq!(failure(pantry(), &optimal(&[1_000, 1_000], 0)), Error::InvalidArgument);
    assert_eq!(failure(pantry(), &optimal(&[1_000; 4], 0)), Error::InvalidArgument);
    assert_eq!(failure(pantry(), &optimal(&[], 0)), Error::InvalidArgument);
}

#[test]
fn meal_fails_on_an_unknown_allergen_in_any_row() {
    for bad in 0..3 {
        let mut reader = pantry();
        reader.records[bad].allergens = "Milk,Bogus".to_string();
        assert_eq!(failure(reader, &optimal(&[0, 0, 0], 0)), Error::InvalidAllergen, "row {bad}");
        let mut reader = pantry();
        reader.records[bad].allergens = "Milk,Bogus".to_string();
        assert_eq!(failure(reader, &optimal(&[1_000; 3], 0)), Error::InvalidAllergen, "row {bad}");
    }
}

#[test]
fn meal_allergen_failure_comes_before_any_other() {
    let spoiled = || {
        let mut reader = pantry();
        reader.records[2].allergens = String::new();
        reader
    };
    assert_eq!(failure(spoiled(), &SolverOutcome::Infeasible), Error::InvalidAllergen);
    assert_eq!(failure(spoiled(), &SolverOutcome::Unbounded), Error::InvalidAllergen);
    assert_eq!(failure(spoiled(), &optimal(&[], 0)), Error::InvalidAllergen);
}

#[test]
fn program_has_one_variable_for_each_record() {
    let program = calculator(pantry()).get_problem();
    assert_eq!(program.objective, vec![100, 100, 150]);
    assert_eq!(program.constraints.len(), 4);
    for constraint in &program.constraints {
        assert_eq!(constraint.coefficients.len(), 3);
    }
}

#[test]
fn program_bounds_the_four_nutrients() {
    let program = calculator(pantry()).get_problem();
    let calories = &program.constraints[0];
    assert_eq!(calories.coefficients, vec![165_000, 130_000, 92_500]);
    assert_eq!(calories.op, ComparisonOp::Le);
    assert_eq!(calories.bound, 800_000);
    let protein = &program.constraints[1];
    assert_eq!(protein.coefficients, vec![31_000, 2_700, 5_250]);
    assert_eq!(protein.op, ComparisonOp::Ge);
    assert_eq!(protein.bound, 40_000);
    let carbs = &program.constraints[2];
    assert_eq!(carbs.coefficients, vec![0, 28_000, 7_000]);
    assert_eq!(carbs.op, ComparisonOp::Le);
    assert_eq!(carbs.bound, 100_000);
    let sodium = &program.constraints[3];
    assert_eq!(sodium.coefficients, vec![74_000, 1_000, 70_000]);
    assert_eq!(sodium.op, ComparisonOp::Le);
    assert_eq!(sodium.bound, 1_000_000);
}

#[test]
fn program_of_an_empty_catalog_has_no_variables() {
    let program = calculator(CsvReader { records: Vec::new() }).get_problem();
    assert!(program.objective.is_empty());
    assert_eq!(program.constraints.len(), 4);
    for constraint in &program.constraints {
        assert!(constraint.coefficients.is_empty());
    }
}

#[test]
fn calculator_keeps_its_catalog() {
    let calculator = calculator(pantry());
    assert_eq!(calculator.reader().records.len(), 3);
    assert_eq!(calculator.reader().records[2].item, "Yoghurt");
}

#[test]
fn whole_servings_keep_the_targets_of_their_solution() {
    // 2 of chicken and 3 of rice keep every bound; so does the meal.
    let values = [2_000u64, 3_000, 0];
    let calculator = calculator(pantry());
    let program = calculator.get_problem();
    for constraint in &program.constraints {
        let left: u128 = constraint
            .coefficients
            .iter()
            .zip(values)
            .map(|(c, v)| *c as u128 * v as u128)
            .sum();
        let right = constraint.bound as u128 * 1000;
        match constraint.op {
            ComparisonOp::Le => assert!(left <= right),
            ComparisonOp::Ge => assert!(left >= right),
        }
    }
    let meal = calculator.calculate_meal(&optimal(&values, 500_000)).unwrap();
    assert_eq!(meal.total_calories(), 720_000);
    assert!(meal.total_calories() <= 800_000);
    assert_eq!(meal.total_protein(), 70_100);
    assert!(meal.total_protein() >= 40_000);
    assert_eq!(meal.total_carbs(), 84_000);
    assert!(meal.total_carbs() <= 100_000);
    assert_eq!(meal.total_sodium(), 151_000);
    assert!(meal.total_sodium() <= 1_000_000);
}

#[test]
fn whole_servings_weigh_what_the_objective_says() {
    let values = [2_000u64, 3_000, 1_000];
    let calculator = calculator(pantry());
    let program = calculator.get_problem();
    let objective: u64 = program.objective.iter().zip(values).map(|(c, v)| *c as u64 * v).sum();
    assert_eq!(objective, 650_000);
    let meal = calculator.calculate_meal(&optimal(&values, objective)).unwrap();
    let mass: u64 = meal.items().iter().map(|item| item.serving_size as u64 * item.count).sum();
    assert_eq!(mass, 650);
    assert_eq!(meal.total_grams(), mass);
}

#[test]
fn every_item_is_taken_at_least_once() {
    let values = [500u64, 499, 999, 1_000, 1, 0, 254_600, 77_777];
    let reader = CsvReader {
        records: values.iter().map(|v| record(&v.to_string(), "None", 10, [1, 2, 3, 4])).collect(),
    };
    let meal = meal(reader, &values, 0);
    let names: Vec<&str> = meal.items().iter().map(|item| item.name.as_str()).collect();
    assert_eq!(names, vec!["500", "999", "1000", "254600", "77777"]);
    for item in meal.items() {
        assert!(item.count >= 1);
        let value: u64 = item.name.parse().unwrap();
        assert!(value >= 500);
    }
}

#[test]
fn one_serving_of_each_cannot_pass_the_protein_of_the_catalog() {
    // The catalog holds 38.95 g of protein in all; a target of 40 g needs more than
    // one serving of some food.
    let calculator = calculator(pantry());
    let program = calculator.get_problem();
    let protein = &program.constraints[1];
    let all: u64 = protein.coefficients.iter().map(|c| *c as u64).sum();
    assert_eq!(all, 38_950);
    assert!(protein.bound > all);
    for values in [[1_000u64, 1_000, 1_000], [0, 0, 0], [1_000, 0, 500], [999, 1_000, 1]] {
        let left: u128 =
            protein.coefficients.iter().zip(values).map(|(c, v)| *c as u128 * v as u128).sum();
        assert!(left < protein.bound as u128 * 1000, "{values:?}");
    }
}
