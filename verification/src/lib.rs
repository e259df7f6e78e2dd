//! Ingestion pipeline for an S-expression based board-design dialect.
//!
//! The crate parses parenthesized text into a generic expression tree,
//! walks that tree into a typed design model, places every pad in board
//! coordinates, joins nets to their net classes, and assembles the final
//! routing problem.  All numeric quantities are exact fixed-point values
//! held in millionths of a design unit, so every stage of the pipeline is
//! verified end to end.

pub mod distinct_color_generator;
pub mod dsn_struct;
pub mod numeric;
pub mod pad;
pub mod parse_to_display;
pub mod parse_to_display_format;
pub mod parse_to_pcbproblem;
pub mod parse_to_s_expr;
pub mod parse_to_struct;
pub mod pcb_problem;
pub mod s_expr;
pub mod shapes;
pub mod trig;
