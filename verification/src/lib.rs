//! Image-processing core: pixel positions, rectangular areas and their walks,
//! two-dimensional matrices, image layers and images, the integer pixel
//! operations of the processing steps, the filters' configurations and the text
//! their settings are saved in.

pub mod pixel_pos;
pub mod pixels_area;
pub mod pixels_iter;
pub mod matrix2d;
pub mod img;
pub mod img_ops;
pub mod layers_iter;
pub mod parse;
pub mod text_check;
pub mod filter_option;
pub mod pixel_ops;
pub mod filter;
pub mod linear;
pub mod edge_detection;
pub mod settings;
pub mod filter_kind;
pub mod message;
pub mod assets;
pub mod project;
pub mod chain;
