//! Rendering of a computed panorama: compositing the samples seen through
//! every pixel into a raster, and describing a picked pixel.
//!
//! Every real-valued quantity (angles in degrees, lengths in metres, colour
//! channels and ratios) is a decimal fixed-point number with six fractional
//! digits, stored as the integer count of millionths. Each formula is computed
//! exactly on such numbers and rounded in the way its contract states;
//! nothing overflows, whatever the numbers are. The angles at which pixels
//! are seen are counted a million times finer, in units of `10^-12` degree,
//! so that no two rows and no two columns of an image share one.
//!
//! - [`data`]: the request and the result, their well-formedness, and the
//!   mapping from a pixel to its viewing angles;
//! - [`rendering`]: the tint of terrain, the colour of a pixel, the raster;
//! - [`interface`]: the lines of text on a picked pixel;
//! - [`fixed`], [`fractional`], [`wide`], [`text`]: the arithmetic and the
//!   decimal text underneath.

pub mod data;
pub mod fixed;
pub mod fractional;
pub mod interface;
pub mod rendering;
pub mod text;
pub mod wide;

pub use data::{AllData, Params, PixelColor};
pub use interface::describe_pixel;
pub use rendering::create_surface;
