//! Verified core of a twisted-bilayer-graphene moiré pipeline: sampling of the
//! moiré parameter disk, the Pauli basis and the block layout of the Bloch
//! Hamiltonian, and the calculation, rescaling and averaging of densities of
//! states.
//!
//! Nothing here computes with real numbers. Coordinates are counted in grid
//! steps, so that membership in a disk is decided exactly; matrices are given
//! as tables of exact coefficients; and where numbers have to be added,
//! scaled or conjugated, the caller hands in the arithmetic and this library
//! decides what it is applied to, and in which order.

pub mod sampler;
pub mod disk_laws;
pub mod pauli;
pub mod layout;
pub mod dos;
