//! The insect colony simulation.
//!
//! * [`types`] holds the records, [`world`] the state built from them and
//!   what holds of it between commands.
//! * [`economy`] is the ledger: prices, affordability, payment.
//! * [`registry`] says what a creature of each type is born with, and
//!   [`lifecycle`] is birth and death.
//! * [`founding`], [`larva`], [`construction`], [`production`],
//!   [`movement`], [`exploration`], [`combat`] and [`reproduction`] are the
//!   commands players issue.
//! * [`ai`] is the scheduler that runs colonies for absent players.
//! * [`laws`] states what holds of all of it together, and [`ai_laws`]
//!   what a whole tick does to one colony's ledger.

pub mod ai;
pub mod ai_laws;
pub mod combat;
pub mod construction;
pub mod economy;
pub mod exploration;
pub mod founding;
pub mod geometry;
pub mod larva;
pub mod laws;
pub mod lifecycle;
pub mod movement;
pub mod production;
pub mod registry;
pub mod reproduction;
pub mod rng;
pub mod types;
pub mod world;
