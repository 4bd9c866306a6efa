//! A fuzzy-inference computation engine.
//!
//! Crisp inputs are carried through the classic pipeline — fuzzification,
//! rule evaluation, implication, aggregation, defuzzification — in both the
//! Mamdani (relational-output) and Takagi-Sugeno-Kang (functional-output)
//! formulations.
//!
//! All quantities are fixed-point numbers: a value `v` stands for the real
//! number `v / SCALE` (see [`fixed`]).  Membership degrees lie in
//! `[0, SCALE]`, where `SCALE` plays the role of `1.0`.

pub mod aggregations;
pub mod defuzzifications;
pub mod errors;
pub mod implications;
pub mod fixed;
pub mod fuzzy_inference_systems;
pub mod membership_functions;
pub mod membership_ranges;
pub mod rules;
pub mod s_norms;
pub mod t_norms;
pub mod variables;
