//! Trust anchors: the keys of the roots that a chain may end in.

use crate::pem::{decode_pem_body, pem_decoded, PemError};
use crate::text::same_bytes;
use crate::x509::{spki_bits, spki_from_der, ParsedCert};
use vstd::prelude::*;
use vstd::utf8::{decode_utf8, valid_utf8};

verus! {

/// The root that a chain ends in.
#[derive(Debug, Clone, Copy, PartialEq, Eq, Structural)]
pub enum KeyboxRootType {
    Google,
    AospEc,
    AospRsa,
    Knox,
    Unknown,
}

impl KeyboxRootType {
    /// The name of a root in lower case, its words joined by underscores.
    pub open spec fn snake_case(self) -> Seq<char> {
        match self {
            KeyboxRootType::Google => "google"@,
            KeyboxRootType::AospEc => "aosp_ec"@,
            KeyboxRootType::AospRsa => "aosp_rsa"@,
            KeyboxRootType::Knox => "knox"@,
            KeyboxRootType::Unknown => "unknown"@,
        }
    }

    /// The name of the root in lower case, its words joined by underscores.
    pub fn as_snake_case(self) -> (r: &'static str)
        ensures
            r@ == self.snake_case(),
    {
        match self {
            KeyboxRootType::Google => "google",
            KeyboxRootType::AospEc => "aosp_ec",
            KeyboxRootType::AospRsa => "aosp_rsa",
            KeyboxRootType::Knox => "knox",
            KeyboxRootType::Unknown => "unknown",
        }
    }
}

/// The public keys of the known roots, each as the bytes of a PEM file.
#[derive(Debug)]
pub struct RootKeys {
    pub google: Vec<u8>,
    pub aosp_ec: Vec<u8>,
    pub aosp_rsa: Vec<u8>,
    pub knox: Vec<u8>,
}

/// A root and the bytes of its public key.
#[derive(Debug)]
pub struct TrustAnchor {
    pub kind: KeyboxRootType,
    pub key: Vec<u8>,
}

/// The values of a [`TrustAnchor`].
#[verifier::ext_equal]
pub struct AnchorView {
    pub kind: KeyboxRootType,
    pub key: Seq<u8>,
}

impl View for TrustAnchor {
    type V = AnchorView;

    open spec fn view(&self) -> AnchorView {
        AnchorView { kind: self.kind, key: self.key@ }
    }
}

/// The values of each anchor of a list.
pub open spec fn anchor_views(anchors: Seq<TrustAnchor>) -> Seq<AnchorView> {
    anchors.map_values(|a: TrustAnchor| a@)
}

/// Why the bytes of a PEM file hold no public key.
#[derive(Debug)]
pub enum AnchorError {
    /// They are not a text.
    NotUtf8,
    /// The text has no decoded body.
    Pem { cause: PemError },
    /// The body is no subject public key info; the message of the parser.
    Spki { message: String },
}

/// The values of an [`AnchorError`].
#[verifier::ext_equal]
pub enum AnchorErrorView {
    NotUtf8,
    Pem { cause: PemError },
    Spki { message: Seq<char> },
}

impl View for AnchorError {
    type V = AnchorErrorView;

    open spec fn view(&self) -> AnchorErrorView {
        match self {
            AnchorError::NotUtf8 => AnchorErrorView::NotUtf8,
            AnchorError::Pem { cause } => AnchorErrorView::Pem { cause: *cause },
            AnchorError::Spki { message } => AnchorErrorView::Spki { message: message@ },
        }
    }
}

impl AnchorErrorView {
    /// What the error says.
    pub open spec fn message(self) -> Seq<char> {
        match self {
            AnchorErrorView::NotUtf8 => "anchor PEM is not valid UTF-8"@,
            AnchorErrorView::Pem { .. } => "anchor PEM body decode failed"@,
            AnchorErrorView::Spki { message } => "anchor SPKI parse: "@ + message,
        }
    }
}

impl AnchorError {
    /// The message of the error.
    pub fn message(&self) -> (r: String)
        ensures
            r@ == self@.message(),
    {
        match self {
            AnchorError::NotUtf8 => "anchor PEM is not valid UTF-8".to_string(),
            AnchorError::Pem { .. } => "anchor PEM body decode failed".to_string(),
            AnchorError::Spki { message } => "anchor SPKI parse: ".to_string().concat(
                message.as_str(),
            ),
        }
    }
}

/// The key that the bytes of a PEM file hold.
pub open spec fn anchor_key(pem: Seq<u8>) -> Result<Seq<u8>, AnchorErrorView> {
    if !valid_utf8(pem) {
        Err(AnchorErrorView::NotUtf8)
    } else {
        match pem_decoded(decode_utf8(pem)) {
            Err(cause) => Err(AnchorErrorView::Pem { cause }),
            Ok(der) => match spki_bits(der) {
                Err(message) => Err(AnchorErrorView::Spki { message }),
                Ok(bits) => Ok(bits),
            },
        }
    }
}

/// The anchor of one root: none where its PEM file holds no key.
pub open spec fn anchor_of(kind: KeyboxRootType, pem: Seq<u8>) -> Seq<AnchorView> {
    match anchor_key(pem) {
        Ok(key) => seq![AnchorView { kind, key }],
        Err(_) => seq![],
    }
}

/// The anchors of the known roots, in the order in which they are tried.
pub open spec fn anchors_of(roots: RootKeys) -> Seq<AnchorView> {
    anchor_of(KeyboxRootType::Google, roots.google@)
        + anchor_of(KeyboxRootType::AospEc, roots.aosp_ec@)
        + anchor_of(KeyboxRootType::AospRsa, roots.aosp_rsa@)
        + anchor_of(KeyboxRootType::Knox, roots.knox@)
}

/// The first anchor with the key `key`.
pub open spec fn root_type_of(key: Seq<u8>, anchors: Seq<AnchorView>) -> KeyboxRootType
    decreases anchors.len(),
{
    if anchors.len() == 0 {
        KeyboxRootType::Unknown
    } else if anchors[0].key == key {
        anchors[0].kind
    } else {
        root_type_of(key, anchors.drop_first())
    }
}

/// Reads the public key in the bytes of a PEM file.
pub fn parse_anchor(pem_bytes: &[u8]) -> (r: Result<Vec<u8>, AnchorError>)
    ensures
        match r {
            Ok(key) => anchor_key(pem_bytes@) == Ok::<Seq<u8>, AnchorErrorView>(key@),
            Err(e) => anchor_key(pem_bytes@) == Err::<Seq<u8>, AnchorErrorView>(e@),
        },
{
    let text = match core::str::from_utf8(pem_bytes) {
        Ok(text) => text,
        Err(_) => return Err(AnchorError::NotUtf8),
    };
    let der = match decode_pem_body(text) {
        Ok(der) => der,
        Err(cause) => return Err(AnchorError::Pem { cause }),
    };
    match spki_from_der(der.as_slice()) {
        Ok(bits) => Ok(bits),
        Err(message) => Err(AnchorError::Spki { message }),
    }
}

/// Adds the anchor of one root, if its PEM file holds a key.
fn add_anchor(anchors: &mut Vec<TrustAnchor>, kind: KeyboxRootType, pem: &Vec<u8>)
    ensures
        anchor_views(final(anchors)@) == anchor_views(old(anchors)@) + anchor_of(kind, pem@),
{
    match parse_anchor(pem.as_slice()) {
        Ok(key) => {
            anchors.push(TrustAnchor { kind, key });
        },
        Err(_) => {},
    }
    assert(anchor_views(anchors@) == anchor_views(old(anchors)@) + anchor_of(kind, pem@));
}

/// The anchors of the known roots. A root whose PEM file holds no key is left out.
pub fn trust_anchors(roots: &RootKeys) -> (r: Vec<TrustAnchor>)
    ensures
        anchor_views(r@) == anchors_of(*roots),
{
    let mut anchors: Vec<TrustAnchor> = Vec::new();
    assert(anchor_views(anchors@) == Seq::<AnchorView>::empty());
    add_anchor(&mut anchors, KeyboxRootType::Google, &roots.google);
    add_anchor(&mut anchors, KeyboxRootType::AospEc, &roots.aosp_ec);
    add_anchor(&mut anchors, KeyboxRootType::AospRsa, &roots.aosp_rsa);
    add_anchor(&mut anchors, KeyboxRootType::Knox, &roots.knox);
    anchors
}

/// Recognizes a root by its public key.
pub fn detect_root_type(root: &ParsedCert, anchors: &Vec<TrustAnchor>) -> (r: KeyboxRootType)
    ensures
        r == root_type_of(root@.key.bits, anchor_views(anchors@)),
{
    let ghost all = anchor_views(anchors@);
    let ghost bits = root@.key.bits;
    let mut i: usize = 0;
    assert(all.skip(0) == all);
    while i < anchors.len()
        invariant
            i <= anchors@.len(),
            all == anchor_views(anchors@),
            bits == root@.key.bits,
            root_type_of(bits, all) == root_type_of(bits, all.skip(i as int)),
        decreases anchors@.len() - i,
    {
        proof {
            assert(all.skip(i as int)[0] == anchors@[i as int]@);
            assert(all.skip(i as int).drop_first() == all.skip(i + 1));
        }
        if same_bytes(anchors[i].key.as_slice(), root.key.bits.as_slice()) {
            return anchors[i].kind;
        }
        i = i + 1;
    }
    KeyboxRootType::Unknown
}

} // verus!
