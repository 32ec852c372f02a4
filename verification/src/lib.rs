//! A Mamdani-style fuzzy inference engine for a traffic simulation.
//!
//! The engine turns several imprecise numeric measurements (inputs) into
//! precise control outputs by evaluating named sets of fuzzy rules: it
//! fuzzifies the inputs through piecewise-linear membership functions,
//! combines antecedent degrees with `min` (fuzzy AND), aggregates rule
//! firing strengths landing on a shared output set with `max` (fuzzy OR),
//! and defuzzifies every touched output with a 40-step centroid.
//!
//! All quantities are fixed-point numbers in micro-units (`SCALE`
//! micro-units equal one unit), so every step of the computation has an
//! exact integer specification.

pub mod fuzzy;
pub mod ecs;
pub mod car;
