//! Display, sampling and input logic for Wio Terminal sketches: text terminals,
//! a microphone spectrum analyser, sensor read-outs and button handling.
//!
//! The hardware (LCD, ADC, USB, buttons) is driven by the application; this
//! library decides what to draw and how the sampled data flows, and states it
//! in contracts.

pub mod geometry;
mod font;
pub mod terminal;
pub mod usb_terminal;
pub mod mic_terminal;
pub mod sampler;
pub mod spectrum;
pub mod buttons;
pub mod readout;
pub mod mic_stats;
