//! Post-quantum key exchange.

pub mod kyber;
