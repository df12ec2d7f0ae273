//! A two-party Diffie-Hellman key exchange with an LCG keystream cipher and
//! hex-framed messages.
pub mod modexp;
pub mod keystream;
pub mod cipher;
pub mod dh;
pub mod frame;
pub mod handshake;
pub mod printable;
