//! Small verified utilities: an active-element vector, orientation-aware points,
//! tri-state results, interval sets, text chunks and their summaries, key bindings, and
//! the code generation of a set of derive macros.

mod active_vec;
pub mod alias_hash_map;
pub mod atom;
pub mod chunk;
pub mod chunk_iter;
mod chunk_storage;
pub mod chunk_summary;
pub mod debugged;
pub mod derive;
pub mod distance;
pub mod extended_grapheme_iter;
mod fmt;
mod indexed;
pub mod interval_set;
mod is;
pub mod key_map;
pub mod length_summary;
mod read_value;
mod run_for;
mod geometry;
mod optional_result;
mod outcome;
mod output;
mod saturating;
pub mod segmentation;
pub mod text_model;
pub mod text_summary;
pub mod utf8;
pub mod rope_builder;

pub use crate::active_vec::{cycle_index, cycled_index, lemma_cycle_compose, lemma_cycle_inverse, ActiveVec};
pub use crate::geometry::{Orientation, Point, PointU16, PointUsize};
pub use crate::saturating::{clamp_to, SaturatingAddSigned, SaturatingSub};
pub use crate::output::{lemma_output_option_round_trip, Output};
pub use crate::optional_result::OptionalResult;
pub use crate::outcome::Outcome;
pub use crate::fmt::{Debugged, OptionDisplay, ResultDisplay, StatusDisplay};
pub use crate::indexed::Indexed;
pub use crate::is::Is;
pub use crate::read_value::ReadValue;
pub use crate::run_for::RunForError;
pub use crate::interval_set::{Interval, IntervalSet};
