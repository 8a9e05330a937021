//! A keystroke pipeline: a capture state machine turns terminal keys into text
//! messages, a bounded channel carries them and drops what does not fit, and a
//! display state appends what each poll tick receives.

pub mod channel;
pub mod capture;
pub mod display;
pub mod pipeline;
