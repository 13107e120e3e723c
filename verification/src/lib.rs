//! A tick-driven artificial-life population simulator.
//!
//! A bounded population of agents ("estajoj") ages, develops needs,
//! interacts, reproduces and dies across discrete simulation steps.
//! The engine keeps a world-level log of notable events and renders a
//! snapshot of the run for periodic persistence by the embedding.
//!
//! All bounded quantities (life, hunger, ambition) are carried in tenths
//! of a point, so the nominal range 0.0 ..= 100.0 becomes 0 ..= 1000.
//! Probabilities are carried in thousandths, so 1.0 becomes 1000.

pub mod clock;
pub mod estajo;
pub mod event;
pub mod history;
pub mod needs;
pub mod params;
pub mod rng;
pub mod selection;
pub mod text;
pub mod world;
