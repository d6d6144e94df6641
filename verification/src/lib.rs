//! A dynamic-pricing model for a single vending machine.
//!
//! The engine combines three signals into one price after every sale:
//! inventory scarcity, recent-demand velocity over a sliding 30-second
//! window, and a cumulative bonding curve. All prices are fixed-point
//! values counted in tenths of a currency unit, so every formula is
//! exact integer arithmetic and carries a proved contract.

pub mod engine;
pub mod math;
pub mod window;

pub use engine::PricingEngine;
pub use engine::PurchaseOutcome;
