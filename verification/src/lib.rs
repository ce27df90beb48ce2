//! Sensor state and history engine of a terminal temperature dashboard:
//! bounded sample histories, a per-label history store, chip selection and
//! pinning, and the sampling step that feeds the histories.

pub mod app;
pub mod components;
pub mod history;
pub mod input;
pub mod navigation;
pub mod ring_buffer;
pub mod sensors;
