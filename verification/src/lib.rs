//! A color-driven application launcher.
//!
//! Every display shows a gradient of perceptual colors. A click on the
//! gradient launches the installed application whose icon comes nearest to
//! the color under the pointer. This library holds the rules of that: the
//! gradient field, the index of icon colors and the lookup in it, the set of
//! surfaces and what each compositor event does to it, and the resolution of
//! a click into a command. Colors are fixed-point integers throughout, so
//! that every rule is exact.
//!
//! Reading files, decoding images, converting between color spaces and
//! talking to the compositor are left to the program around the library.

pub mod average;
pub mod color;
pub mod command;
pub mod desktop;
pub mod gpu;
pub mod gradient;
pub mod index;
pub mod launcher;
pub mod laws;
pub mod raster;
pub mod roots;
pub mod surface;
pub mod text;
