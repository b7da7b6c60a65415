//! The terminal face of the phosphor sequencer: colour themes, the keyboard
//! band, and the text layouts its panels are drawn from.

pub mod bar;
pub mod clip_view;
pub mod clips;
pub mod config;
pub mod eq;
pub mod fx;
pub mod fx_panels;
pub mod inst;
pub mod keyboard;
pub mod kit;
pub mod lane;
pub mod knobs;
pub mod meters;
pub mod notes;
pub mod overlays;
pub mod pad_panel;
pub mod pads;
pub mod practice;
pub mod roll;
pub mod seq_view;
pub mod steps;
pub mod style;
pub mod text;
pub mod theme;
pub mod top_bar;
pub mod tracks;
pub mod trim;
pub mod wave;
pub mod zones;

