//! Verified control logic for a two-potentiometer HSL lamp.
//!
//! Two analog inputs are normalized and clamped to the unit interval, mapped
//! through the HSL color model to an RGB triple, and turned into PWM duty
//! counts and a three-state status-LED pattern. All values are exact
//! fixed-point numbers (see [`fixed::UNIT`]); the hardware itself (ADC, PWM
//! timers, digital outputs, delay) lives outside this crate and only
//! exchanges plain integers with it.

pub mod actuator;
pub mod color;
pub mod control;
pub mod fixed;
pub mod sampler;
