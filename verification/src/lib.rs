//! Light-show toolkit: RGB packets and their patterns, the show catalog, the show
//! interpreter and the operator sequencer, each with its contracts.

pub mod patterns;
pub mod text;
pub mod timing;
pub mod catalog;
pub mod engine;
pub mod term;
pub mod runtime;
pub mod xbee;
pub mod routines;
