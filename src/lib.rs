//! A BN254 pairing engine whose expensive group operations run through a
//! replaceable hook capability, with the subgroup check kept in the core.

pub mod bn;
pub mod bridge;
pub mod codec;
pub mod curve;
pub mod field;
pub mod g1;
pub mod g2;
pub mod hooks;
pub mod projective;
