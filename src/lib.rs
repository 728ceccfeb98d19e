//! A group of hidden order: RSA-style quotient groups `(Z/MZ)^* / {±1}`
//! whose arithmetic is carried out by GMP integers from `rug`.
pub mod group;
pub mod natural;
pub mod rsa;
pub mod rsa100;
pub mod rsa3x5;
