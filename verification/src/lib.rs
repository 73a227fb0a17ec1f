//! Verified validation and generation of Android keybox files.
//!
//! A keybox file holds private keys with their certificate chains. The
//! functions here decide whether such a file is valid, say what is wrong with
//! it, and write new ones. Whatever they need from files, the network, or an
//! XML parser, their callers hand in.

pub mod anchors;
pub mod chain;
pub mod clock;
pub mod file_laws;
pub mod generate;
pub mod json;
pub mod key_laws;
pub mod laws;
pub mod pem;
pub mod pem_laws;
pub mod private_key;
pub mod report;
pub mod revocation;
pub mod text;
pub mod text_laws;
pub mod validate;
pub mod value_laws;
pub mod x509;
pub mod xml_model;
