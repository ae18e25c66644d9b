//! Replace every pixel of one colour, within a fixed tolerance, by another colour.

pub mod color;
pub mod config;
pub mod image;

pub use color::{color_matches, replace_pixel, Criterion, Pixel, COLOR_RANGE};
pub use config::{parse_args, parse_color, Args, Config, ConfigError};
pub use image::{apply, ImageBuffer, ImageError};
