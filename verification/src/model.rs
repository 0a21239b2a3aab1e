//! The service's entry points into the computation.

use vstd::prelude::*;
use crate::error::Error;
use crate::services::csv_reader::{loaded, CatalogSource, CsvReader};
use crate::services::meal_calc::{MealCalculator, NutrientTargets};
use crate::number::{parse_decimal, thousandths_of, within};
use crate::text::same_text;

verus! {

/// Where the catalog is kept.
pub const FILE_NAME: &'static str = "./d2_database.csv";

/// The most that a nutrient target can be, in thousandths.
pub const TARGET_MAX: u64 = 0xffff_ffff_ffff_ffff;

/// The controller that the routes share. It keeps no state: every call stands alone.
#[derive(Debug, Clone, Copy)]
pub struct ModelController {}

/// By how many hundredths a person's activity multiplies their energy need.
pub open spec fn activity_multiplier(gender: Seq<char>, activity: Seq<char>) -> Result<u32, Error> {
    if gender != "male"@ && gender != "female"@ {
        Err(Error::InvalidArgument)
    } else if activity == "sedentary"@ {
        Ok(100)
    } else if activity == "light"@ {
        if gender == "male"@ {
            Ok(112)
        } else {
            Ok(114)
        }
    } else if activity == "moderate"@ {
        Ok(127)
    } else if activity == "vigorous"@ {
        if gender == "male"@ {
            Ok(154)
        } else {
            Ok(145)
        }
    } else {
        Err(Error::InvalidArgument)
    }
}

/// The activity multiplier for a gender and a level of activity, in hundredths.
pub fn get_activity_multiplier(gender: &str, activity: &str) -> (r: Result<u32, Error>)
    ensures
        r == activity_multiplier(gender@, activity@),
{
    let male = same_text(gender, "male");
    if !male && !same_text(gender, "female") {
        return Err(Error::InvalidArgument);
    }
    if same_text(activity, "sedentary") {
        Ok(100)
    } else if same_text(activity, "light") {
        if male {
            Ok(112)
        } else {
            Ok(114)
        }
    } else if same_text(activity, "moderate") {
        Ok(127)
    } else if same_text(activity, "vigorous") {
        if male {
            Ok(154)
        } else {
            Ok(145)
        }
    } else {
        Err(Error::InvalidArgument)
    }
}

/// The nutrient target that `text` writes, in thousandths: a decimal number that is
/// finite and not negative.
pub open spec fn target_of(text: Seq<char>) -> Option<u64> {
    within(thousandths_of(text), TARGET_MAX)
}

/// The targets that four texts write, where each of them writes one.
pub open spec fn targets_of(
    protein: Seq<char>,
    carbs: Seq<char>,
    sodium: Seq<char>,
    calories: Seq<char>,
) -> Option<NutrientTargets> {
    if target_of(protein) is Some && target_of(carbs) is Some && target_of(sodium) is Some
        && target_of(calories) is Some {
        Some(
            NutrientTargets {
                calories: target_of(calories)->0,
                protein: target_of(protein)->0,
                carbs: target_of(carbs)->0,
                sodium: target_of(sodium)->0,
            },
        )
    } else {
        None
    }
}

/// Reads four nutrient targets.
pub fn parse_targets(protein: &str, carbs: &str, sodium: &str, calories: &str) -> (r: Option<
    NutrientTargets,
>)
    ensures
        r == targets_of(protein@, carbs@, sodium@, calories@),
{
    let protein: u64 = match parse_decimal(protein, TARGET_MAX) {
        Some(v) => v,
        None => {
            return None;
        },
    };
    let carbs: u64 = match parse_decimal(carbs, TARGET_MAX) {
        Some(v) => v,
        None => {
            return None;
        },
    };
    let sodium: u64 = match parse_decimal(sodium, TARGET_MAX) {
        Some(v) => v,
        None => {
            return None;
        },
    };
    let calories: u64 = match parse_decimal(calories, TARGET_MAX) {
        Some(v) => v,
        None => {
            return None;
        },
    };
    Some(NutrientTargets { calories, protein, carbs, sodium })
}

impl ModelController {
    /// The controller.
    pub fn new() -> (r: Self)
        ensures
            r == (ModelController {  }),
    {
        ModelController {  }
    }

    /// Sets up the computation of a meal plan from a request's targets, as they were
    /// written, and what was read of the catalog.
    ///
    /// A target that is no finite, non-negative number refuses the request before the
    /// catalog is looked at; then the catalog is loaded as a whole or not at all.
    pub fn get_meal_plan(
        &self,
        source: &CatalogSource,
        protein: &str,
        carbs: &str,
        sodium: &str,
        calories: &str,
    ) -> (r: Result<MealCalculator, Error>)
        ensures
            match targets_of(protein@, carbs@, sodium@, calories@) {
                None => r is Err && r->Err_0 == Error::InvalidArgument,
                Some(targets) => match loaded(*source) {
                    Err(e) => r is Err && r->Err_0 == e,
                    Ok(records) => r is Ok && r->Ok_0.catalog() == records && r->Ok_0.targets()
                        == targets,
                },
            },
    {
        let targets = match parse_targets(protein, carbs, sodium, calories) {
            Some(targets) => targets,
            None => {
                return Err(Error::InvalidArgument);
            },
        };
        let reader = match CsvReader::load(source) {
            Ok(reader) => reader,
            Err(e) => {
                return Err(e);
            },
        };
        Ok(
            MealCalculator::new(
                reader,
                targets.protein,
                targets.carbs,
                targets.sodium,
                targets.calories,
            ),
        )
    }
}

} // verus!
