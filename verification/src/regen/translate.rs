//! Translation of device descriptions into the intermediate representation.
pub mod svd;
