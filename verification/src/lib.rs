//! A terminal rasterizer and the rules of a game of asteroids drawn with it.
//!
//! Triangles and points, given in world coordinates, are projected onto a
//! grid of character cells, filled into it as palette codes, and turned into
//! the text that shows the grid on an ANSI terminal.
//!
//! All scalars are fixed-point integers with eight fractional bits (see
//! [`fixed`]): coordinates, zoom factors and lumas alike. Every executable
//! function carries a contract over mathematical integers and sequences.
//!
//! * [`fixed`]: fixed-point helpers: rounding division, saturation, square
//!   roots.
//! * [`drawables`]: the camera and what can be drawn: triangles, points,
//!   text.
//! * [`palette`]: from lumas to palette codes, and from codes to colours and
//!   glyphs.
//! * [`raster`] and [`raster_laws`]: the scan conversion of one triangle, and
//!   what holds of it.
//! * [`asciicontext`] and [`drawingcontext`]: the frame, its submission
//!   lists and its drawing passes.
//! * [`present`] and [`terminal`]: the text of a frame and the control
//!   sequences in it.
//! * [`logo`]: the reader of the logo's outline file.
//! * [`asteroid`], [`starship`], [`bullet`], [`powerup`], [`enemy`] and
//!   [`chance`]: the rules of the game's objects that need no position.

pub mod fixed;
pub mod drawables;
pub mod palette;
pub mod raster;
pub mod raster_laws;
pub mod terminal;
pub mod present;
pub mod drawingcontext;
pub mod asciicontext;
pub mod logo;
pub mod chance;
pub mod asteroid;
pub mod bullet;
pub mod enemy;
pub mod powerup;
pub mod starship;
