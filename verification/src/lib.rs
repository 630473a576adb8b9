//! Decoder and display pipeline for 2-bit planar tile graphics.
//!
//! Raw tile bytes (two 8-byte bitplanes per 8x8 tile) are decoded into
//! 2-bit color indices, mapped to colors through either a 4-entry shade
//! ramp or the fixed 64-entry hardware palette, and packed into a pixel
//! buffer whose byte layout depends on the target texture format.

pub mod chr;
pub mod color;
pub mod frame;
pub mod palette;
pub mod renderer;
pub mod screen;
pub mod sheet;

pub use chr::ChrData;
pub use chr::FormatError;
pub use chr::NesPixel;
pub use chr::compute_color_index;
pub use color::Rgb;
pub use frame::Action;
pub use frame::LoopState;
pub use renderer::Renderer;
pub use screen::BoundsError;
pub use screen::SCREEN_HEIGHT;
pub use screen::SCREEN_WIDTH;
pub use screen::Screen;
pub use screen::ScreenBgr;
pub use screen::ScreenRgba;
pub use sheet::ShadeMode;
pub use sheet::fill_screen;
pub use sheet::print_palette;
