//! The catalog and the meal computed from it.

pub mod csv_reader;
pub mod laws;
pub mod meal_calc;
