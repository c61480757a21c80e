//! A verified core for an interactive 3D globe viewer.
//!
//! The library models the viewer's algorithmic heart: geodetic coordinates
//! (latitude/longitude and spherical-polar form), the orbit-camera navigation
//! state machine, and the map-tile generator that cuts a bounded raster into
//! fixed-size geographic tiles.
//!
//! All quantities are fixed-point integers: an angle is measured in microradians
//! and a length in micro-units (see [`fixmath`]). Floating-point work that the
//! viewer needs at its edges (trigonometric conversions for rendering, exponential
//! zoom factors) is done by the surrounding application, which hands the results
//! to this library as fixed-point values; every decision taken on those values is
//! verified here.

pub mod camera;
pub mod coords;
pub mod filedb;
pub mod fixmath;
pub mod imgops;
pub mod map;
