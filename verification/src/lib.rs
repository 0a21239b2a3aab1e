//! Meal planning over a nutrient catalog.
//!
//! Amounts are fixed-point integers counted in thousandths of their unit
//! (see [`number::SCALE`]): a catalog is read from rows of text, turned into a
//! linear program, and the program's solution is assembled into a meal.

pub mod config;
pub mod error;
pub mod model;
pub mod number;
pub mod services;
pub mod text;
pub mod web;
