//! The elements of a keybox file.

use vstd::prelude::*;

verus! {

/// The root element of a keybox file.
#[derive(Debug)]
pub struct AndroidAttestation {
    pub keyboxes: Vec<Keybox>,
}

/// One keybox: the keys of a device.
#[derive(Debug)]
pub struct Keybox {
    pub device_id: String,
    pub keys: Vec<Key>,
}

/// One key with its certificate chain.
#[derive(Debug)]
pub struct Key {
    pub algorithm: String,
    pub private_key: Option<TextNode>,
    pub chain: Option<CertificateChain>,
}

/// An element that holds nothing but text.
#[derive(Debug)]
pub struct TextNode {
    pub text: String,
}

/// The certificates of a key, the leaf first.
#[derive(Debug)]
pub struct CertificateChain {
    pub declared: Option<TextNode>,
    pub certificates: Vec<Certificate>,
}

/// One certificate.
#[derive(Debug)]
pub struct Certificate {
    pub format: String,
    pub text: String,
}

} // verus!
