//! A density estimator for the Buddhabrot.
//!
//! Random points of the complex plane are followed through the escape-time
//! iteration `z -> z^p + c`. Every value visited by a point that escapes is
//! counted in a histogram over the output grid, one histogram per colour
//! channel, and the histograms are rescaled to 8-bit intensities at the end.
//!
//! This crate holds everything about that which is decided on integers: the
//! grid and its row-major layout, the length and end of a trajectory, which
//! channel takes which trajectory, the saturating counters and their sums
//! across workers, the rescaling, and the composition of a picture. The
//! arithmetic on complex numbers is the caller's; it reports pixels and
//! flags.

pub mod channel;
pub mod compositor;
pub mod dispatch;
pub mod grid;
pub mod histogram;
pub mod normalize;
pub mod picture;
pub mod trajectory;
pub mod worker;
