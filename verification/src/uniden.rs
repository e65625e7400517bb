//! Device families of one vendor; a module per supported model.

pub mod ubc125xlt;
