//! Parameter model, command synthesis, preset codec and render supervision
//! for a terminal front-end of the FFmpeg encoder.
use vstd::prelude::*;

pub mod builder;
pub mod media;
pub mod model;
pub mod number;
pub mod output_pane;
pub mod params;
pub mod preset;
pub mod render;
pub mod source;
pub mod text;
pub mod trim;
pub mod ui;

verus! {

} // verus!
