//! Price-drop alerts for tracked products: locate a price on a store page,
//! normalise it into an exact decimal, and decide whether an alert is due.

pub mod batch;
pub mod config;
pub mod locate;
pub mod normalize;
pub mod pipeline;
pub mod price;
pub mod selector;
