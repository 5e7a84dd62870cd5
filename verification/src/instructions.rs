//! The three operations on an offer.

pub mod cancel;
pub mod make;
pub mod take;
