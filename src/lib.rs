//! A gate-level model of a small computer's circuitry: every gate is
//! composed from NAND, adders and an ALU are composed from gates, and
//! clocked storage elements are composed from a set-reset latch.
pub mod alu;
pub mod gates;
pub mod register;
