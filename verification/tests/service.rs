use meal_planner::config::{Config, DEFAULT_PORT};
use meal_planner::error::{ClientError, Error, BAD_REQUEST, INTERNAL_SERVER_ERROR};
use meal_planner::model::{get_activity_multiplier, parse_targets, ModelController, FILE_NAME};
use meal_planner::services::csv_reader::{CatalogSource, CsvReader};
use meal_planner::services::meal_calc::NutrientTargets;
use meal_planner::web::mw_auth::mw_require_auth;

fn strings(fields: &[&str]) -> Vec<String> {
    fields.iter().map(|f| f.to_string()).collect()
}

fn header() -> Vec<String> {
    strings(&["item", "allergens", "serving_size", "calories", "protein", "carbs", "sodium"])
}

fn table(header: Vec<String>, rows: Vec<Vec<String>>) -> CatalogSource {
    CatalogSource::Table { header, rows }
}

fn rows() -> Vec<Vec<String>> {
    vec![
        strings(&["Chicken", "None", "100", "165", "31", "0", "74"]),
        strings(&["Rice", "None", "100", "130", "2.7", "28", "1"]),
    ]
}

const ALL_ERRORS: [Error; 8] = [
    Error::InvalidArgument,
    Error::InvalidFile,
    Error::FileParseError,
    Error::InvalidRecord,
    Error::ImpossibleSolution,
    Error::InvalidAllergen,
    Error::NoAuthKey,
    Error::InvalidAuthKey,
];

#[test]
fn failures_of_authentication_are_the_clients() {
    assert_eq!(Error::NoAuthKey.client_status_and_error(), (400, ClientError::NO_AUTH_KEY));
    assert_eq!(Error::InvalidAuthKey.client_status_and_error(), (400, ClientError::WRONG_AUTH_KEY));
    assert_eq!(BAD_REQUEST, 400);
}

#[test]
fn other_failures_show_nothing_to_the_client() {
    for error in [
        Error::InvalidArgument,
        Error::InvalidFile,
        Error::FileParseError,
        Error::InvalidRecord,
        Error::ImpossibleSolution,
        Error::InvalidAllergen,
    ] {
        assert_eq!(error.client_status_and_error(), (500, ClientError::SERVICE_ERROR), "{error:?}");
    }
    assert_eq!(INTERNAL_SERVER_ERROR, 500);
}

#[test]
fn errors_are_named_as_their_variants() {
    for error in ALL_ERRORS {
        assert_eq!(error.as_str(), format!("{error:?}"));
        assert_eq!(error.to_text(), format!("{error:?}"));
    }
    for error in [ClientError::SERVICE_ERROR, ClientError::NO_AUTH_KEY, ClientError::WRONG_AUTH_KEY] {
        assert_eq!(error.as_str(), format!("{error:?}"));
    }
}

#[test]
fn port_is_read_from_its_setting() {
    assert_eq!(Config::new(Some("3000")).port, 3000);
    assert_eq!(Config::new(Some("+80")).port, 80);
    assert_eq!(Config::new(Some("0")).port, 0);
    assert_eq!(Config::new(Some("65535")).port, 65_535);
    assert_eq!(Config::new(Some("8080")), Config { port: 8080 });
}

#[test]
fn port_falls_back_to_the_default() {
    assert_eq!(DEFAULT_PORT, 8080);
    for text in ["", "abc", "65536", "-1", "80 ", " 80", "80.0", "8080x"] {
        assert_eq!(Config::new(Some(text)).port, 8080, "{text:?}");
    }
}

#[test]
fn auth_passes_with_the_key() {
    assert_eq!(mw_require_auth(Some("secret"), Some("secret")), Ok(()));
    assert_eq!(mw_require_auth(Some(""), Some("")), Ok(()));
}

#[test]
fn auth_refuses_a_wrong_key() {
    assert_eq!(mw_require_auth(Some("Secret"), Some("secret")), Err(Error::InvalidAuthKey));
    assert_eq!(mw_require_auth(Some("secret "), Some("secret")), Err(Error::InvalidAuthKey));
    assert_eq!(mw_require_auth(Some(""), Some("secret")), Err(Error::InvalidAuthKey));
    assert_eq!(mw_require_auth(Some("secret"), Some("")), Err(Error::InvalidAuthKey));
}

#[test]
fn auth_needs_a_credential_first() {
    assert_eq!(mw_require_auth(None, Some("secret")), Err(Error::InvalidArgument));
    assert_eq!(mw_require_auth(None, None), Err(Error::InvalidArgument));
}

#[test]
fn auth_needs_a_key_on_the_service() {
    assert_eq!(mw_require_auth(Some("secret"), None), Err(Error::NoAuthKey));
}

#[test]
fn activity_multipliers_in_hundredths() {
    assert_eq!(get_activity_multiplier("male", "sedentary"), Ok(100));
    assert_eq!(get_activity_multiplier("female", "sedentary"), Ok(100));
    assert_eq!(get_activity_multiplier("male", "light"), Ok(112));
    assert_eq!(get_activity_multiplier("female", "light"), Ok(114));
    assert_eq!(get_activity_multiplier("male", "moderate"), Ok(127));
    assert_eq!(get_activity_multiplier("female", "moderate"), Ok(127));
    assert_eq!(get_activity_multiplier("male", "vigorous"), Ok(154));
    assert_eq!(get_activity_multiplier("female", "vigorous"), Ok(145));
}

#[test]
fn activity_multiplier_needs_a_known_gender_and_activity() {
    assert_eq!(get_activity_multiplier("other", "light"), Err(Error::InvalidArgument));
    assert_eq!(get_activity_multiplier("Male", "light"), Err(Error::InvalidArgument));
    assert_eq!(get_activity_multiplier("", "light"), Err(Error::InvalidArgument));
    assert_eq!(get_activity_multiplier("male", "lazy"), Err(Error::InvalidArgument));
    assert_eq!(get_activity_multiplier("female", ""), Err(Error::InvalidArgument));
    assert_eq!(get_activity_multiplier("other", "lazy"), Err(Error::InvalidArgument));
}

#[test]
fn targets_are_read_in_thousandths() {
    assert_eq!(
        parse_targets("65", "120.5", "1000", "1200.25"),
        Some(NutrientTargets { calories: 1_200_250, protein: 65_000, carbs: 120_500, sodium: 1_000_000 })
    );
    assert_eq!(
        parse_targets("0", "0", "0", "0"),
        Some(NutrientTargets { calories: 0, protein: 0, carbs: 0, sodium: 0 })
    );
}

#[test]
fn targets_are_read_as_floating_point_prints_them() {
    let given = [65.0f64, 120.5, 0.001, 1200.0];
    assert_eq!(
        parse_targets(&(-0.0f64).to_string(), "0", "1e2", "2.5E-1"),
        Some(NutrientTargets { calories: 250, protein: 0, carbs: 0, sodium: 100_000 })
    );
    let texts: Vec<String> = given.iter().map(|x| x.to_string()).collect();
    assert_eq!(
        parse_targets(&texts[0], &texts[1], &texts[2], &texts[3]),
        Some(NutrientTargets { calories: 1_200_000, protein: 65_000, carbs: 120_500, sodium: 1 })
    );
    for bad in [-1.0f64, -1e-9, f64::NAN, f64::INFINITY, f64::NEG_INFINITY, 1e300, f64::MAX] {
        let text = bad.to_string();
        assert_eq!(parse_targets(&text, "1", "1", "1"), None, "{text}");
        assert_eq!(parse_targets("1", "1", "1", &text), None, "{text}");
    }
}

#[test]
fn targets_must_each_be_a_number() {
    assert_eq!(parse_targets("", "1", "1", "1"), None);
    assert_eq!(parse_targets("1", "x", "1", "1"), None);
    assert_eq!(parse_targets("1", "1", "-1", "1"), None);
    assert_eq!(parse_targets("1", "1", "1", "NaN"), None);
    assert_eq!(parse_targets("1", "1", "1", "18446744073709551.616"), None);
}

#[test]
fn controller_sets_up_a_calculation() {
    let controller = ModelController::new();
    let calculator =
        controller.get_meal_plan(&table(header(), rows()), "40", "100", "1000", "800").unwrap();
    assert_eq!(calculator.reader().records.len(), 2);
    let program = calculator.get_problem();
    assert_eq!(program.objective, vec![100, 100]);
    assert_eq!(program.constraints[0].bound, 800_000);
    assert_eq!(program.constraints[1].bound, 40_000);
    assert_eq!(program.constraints[2].bound, 100_000);
    assert_eq!(program.constraints[3].bound, 1_000_000);
}

#[test]
fn controller_refuses_a_target_that_is_no_number() {
    let controller = ModelController::new();
    for bad in ["-40", "NaN", "inf", "", "forty"] {
        for place in 0..4 {
            let mut targets = ["40", "100", "1000", "800"];
            targets[place] = bad;
            let result = controller.get_meal_plan(
                &table(header(), rows()),
                targets[0],
                targets[1],
                targets[2],
                targets[3],
            );
            assert_eq!(result.err(), Some(Error::InvalidArgument), "{bad:?} at {place}");
        }
    }
}

#[test]
fn controller_refuses_a_catalog_that_cannot_be_read() {
    let controller = ModelController::new();
    let mut bad = rows();
    bad[1][4] = "lots".to_string();
    let result = controller.get_meal_plan(&table(header(), bad), "40", "100", "1000", "800");
    assert_eq!(result.err(), Some(Error::FileParseError));
    let result = controller.get_meal_plan(&table(Vec::new(), rows()), "40", "100", "1000", "800");
    assert_eq!(result.err(), Some(Error::FileParseError));
    let result = controller.get_meal_plan(&CatalogSource::Garbled, "40", "100", "1000", "800");
    assert_eq!(result.err(), Some(Error::FileParseError));
}

#[test]
fn controller_refuses_a_catalog_that_is_not_there() {
    let controller = ModelController::new();
    let result = controller.get_meal_plan(&CatalogSource::Unavailable, "40", "100", "1000", "800");
    assert_eq!(result.err(), Some(Error::InvalidFile));
}

#[test]
fn catalog_loads_from_what_was_read() {
    let reader = CsvReader::load(&table(header(), rows())).unwrap();
    assert_eq!(reader.records.len(), 2);
    assert_eq!(reader.records[1].protein, 2_700);
    assert_eq!(CsvReader::load(&CatalogSource::Unavailable).err(), Some(Error::InvalidFile));
    assert_eq!(CsvReader::load(&CatalogSource::Garbled).err(), Some(Error::FileParseError));
    let mut short = rows();
    short[0].pop();
    assert_eq!(CsvReader::load(&table(header(), short)).err(), Some(Error::FileParseError));
}

#[test]
fn controller_looks_at_the_targets_first() {
    let controller = ModelController::new();
    let result = controller.get_meal_plan(&table(Vec::new(), rows()), "-1", "100", "1000", "800");
    assert_eq!(result.err(), Some(Error::InvalidArgument));
    let result = controller.get_meal_plan(&CatalogSource::Unavailable, "40", "100", "x", "800");
    assert_eq!(result.err(), Some(Error::InvalidArgument));
}

#[test]
fn catalog_file_name() {
    assert_eq!(FILE_NAME, "./d2_database.csv");
}
