//! Foreground segmentation for raster images, plus the small DOM layer the
//! surrounding application uses: a decoded RGB raster is classified against
//! statistical colour averages in two passes, the passes are reconciled, and
//! isolated speckle pixels are removed by iterative neighbour-density
//! denoising. The result is an RGBA mask raster for a vectorizer.

pub mod average;
pub mod classify;
pub mod convert;
pub mod decode;
pub mod denoise;
pub mod dom;
pub mod env;
pub mod error;
pub mod events;
pub mod pixel;
pub mod raster;

pub use error::ConversionError;
pub use events::Event;
pub use pixel::Pixel;
