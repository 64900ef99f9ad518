//! Generation of LibrePCB library elements from 2D line art.
//!
//! The library takes polylines whose coordinates are fixed-point integers
//! (counts of thousandths of a millimetre), computes bounding geometry,
//! applies an alignment translation together with the Y-axis inversion that
//! the LibrePCB coordinate convention requires, and emits the nested
//! structured-text documents for packages, symbols, components and devices.

pub mod fmt;
pub mod geom;
pub mod ids;
pub mod text;
pub mod emit;
pub mod entities;
pub mod pipeline;
