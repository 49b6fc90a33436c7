//! Verified game rules for two strategy games that share one style of
//! bookkeeping: records live in keyed tables, every command validates
//! completely before it changes anything, and each command's contract says
//! exactly which state comes out.
//!
//! * [`duel`] is a tactical duel on a 5x5 board.
//! * [`colony`] is the insect colony simulation.
//!
//! Quantities that vary continuously (resources, coordinates, speeds) are
//! fixed-point numbers in thousandths, so every rule is exact integer
//! arithmetic.

pub mod colony;
pub mod duel;
pub mod error;
pub mod identity;
pub mod table;
