//! The rules of a two-player artillery game in a city skyline: colours, text,
//! the raster canvas, skyline generation, turns and scoring, the set-up menu,
//! and the sound-cue schedules.

pub mod palette;
pub mod text;
pub mod canvas;
pub mod audio;
pub mod game;
pub mod menu;
pub mod city;
pub mod render;
pub mod screens;
pub mod scene;
