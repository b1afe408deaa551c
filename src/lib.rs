//! Verified core of a barcode/QR scan pipeline: keystroke decoding, the
//! trigger-driven scan buffer, prefix/suffix normalisation, the domain check
//! and the bounded scan history.

pub mod text;
pub mod keys;
pub mod scanner;
pub mod config;
pub mod normalize;
pub mod domain;
pub mod history;
pub mod pipeline;
