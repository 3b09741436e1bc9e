//! Difficulty and performance calculation support for osu! beatmaps:
//! the integer and text logic of the calculator, verified.

pub mod constants;
pub mod text;
pub mod escape;
pub mod mods;
pub mod beatmap;
pub mod taiko;
pub mod binary;
pub mod report;
pub mod score;
