//! What the report on a key means: signatures, chains, roots, private keys,
//! validity, and revocation.

use crate::anchors::{
    anchor_key, anchor_of, anchors_of, root_type_of, AnchorErrorView, AnchorView, KeyboxRootType,
    RootKeys,
};
use crate::chain::{
    chain_verdict, link_verdict, ring_accepts, scheme_for, signature_verdict, LinkErrorView,
    SignatureScheme,
};
use crate::clock::{validity_at, Clock};
use crate::json::Json;
use crate::laws::law_chain_is_its_links;
use crate::pem::{lemma_pem_chain_len, pem_chain_decoded, pem_decoded, unindented, PemError};
use crate::pem_laws::law_pem_chain_is_its_texts;
use crate::private_key::{
    p256_public, p384_public, private_key_verdict, public_verdict, rsa_pkcs1_public,
    rsa_pkcs8_public, settled, KeyMatch, MatchView,
};
use crate::report::{
    chain_report, declared_errors, is_pem, key_report, links_part, pem_texts, private_part,
    root_part, KeyPlace, KeyReportView,
};
use crate::revocation::{entries_of, reason_of, revoked};
use crate::text::{decimal_of, trimmed, usize_of};
use crate::text_laws::{law_case_of_ascii_letters_alone_is_ignored, same_letter};
use crate::x509::{certs_read, spki_bits, x509_read, CertErrorView, CertView};
use crate::xml_model::{Certificate, TextNode};
use vstd::prelude::*;
use vstd::utf8::{decode_utf8, valid_utf8};

verus! {

/// Whether a signature holds under a key: its algorithm is RSA with one of four
/// hashes, or ECDSA with the hash that fits the curve of the key, and `ring`
/// accepts it.
pub open spec fn signature_holds(
    algorithm: Seq<char>,
    curve: Option<Seq<char>>,
    key: Seq<u8>,
    tbs: Seq<u8>,
    sig: Seq<u8>,
) -> bool {
    ||| algorithm == "1.2.840.113549.1.1.5"@ && ring_accepts(SignatureScheme::RsaSha1, key, tbs, sig)
    ||| algorithm == "1.2.840.113549.1.1.11"@ && ring_accepts(
        SignatureScheme::RsaSha256,
        key,
        tbs,
        sig,
    )
    ||| algorithm == "1.2.840.113549.1.1.12"@ && ring_accepts(
        SignatureScheme::RsaSha384,
        key,
        tbs,
        sig,
    )
    ||| algorithm == "1.2.840.113549.1.1.13"@ && ring_accepts(
        SignatureScheme::RsaSha512,
        key,
        tbs,
        sig,
    )
    ||| algorithm == "1.2.840.10045.4.3.2"@ && curve == Some("1.2.840.10045.3.1.7"@)
        && ring_accepts(SignatureScheme::EcdsaP256Sha256, key, tbs, sig)
    ||| algorithm == "1.2.840.10045.4.3.3"@ && curve == Some("1.3.132.0.34"@) && ring_accepts(
        SignatureScheme::EcdsaP384Sha384,
        key,
        tbs,
        sig,
    )
}

/// Whether the certificate `son` names `father` as its issuer and holds a
/// signature by the key of `father`.
pub open spec fn is_signed_by(son: CertView, father: CertView) -> bool {
    &&& son.issuer.raw == father.subject.raw
    &&& signature_holds(
        son.signature.algorithm,
        father.key.parameter_oid,
        father.key.bits,
        son.signature.tbs,
        son.signature.value,
    )
}

/// The eight object identifiers of signature algorithms are all different.
proof fn lemma_algorithms_differ()
    ensures
        ({
            let all = seq![
                "1.2.840.113549.1.1.5"@,
                "1.2.840.113549.1.1.11"@,
                "1.2.840.113549.1.1.12"@,
                "1.2.840.113549.1.1.13"@,
                "1.2.840.10045.4.3.2"@,
                "1.2.840.10045.4.3.3"@,
                "1.2.840.10045.4.1"@,
                "1.2.840.10045.4.3.4"@,
            ];
            forall|i: int, j: int| 0 <= i < j < 8 ==> all[i] != all[j]
        }),
{
    reveal_strlit("1.2.840.113549.1.1.5");
    reveal_strlit("1.2.840.113549.1.1.11");
    reveal_strlit("1.2.840.113549.1.1.12");
    reveal_strlit("1.2.840.113549.1.1.13");
    reveal_strlit("1.2.840.10045.4.3.2");
    reveal_strlit("1.2.840.10045.4.3.3");
    reveal_strlit("1.2.840.10045.4.1");
    reveal_strlit("1.2.840.10045.4.3.4");
    assert("1.2.840.113549.1.1.5"@.len() == 20);
    assert("1.2.840.113549.1.1.11"@.len() == 21 && "1.2.840.113549.1.1.11"@[20] == '1');
    assert("1.2.840.113549.1.1.12"@.len() == 21 && "1.2.840.113549.1.1.12"@[20] == '2');
    assert("1.2.840.113549.1.1.13"@.len() == 21 && "1.2.840.113549.1.1.13"@[20] == '3');
    assert("1.2.840.10045.4.3.2"@.len() == 19 && "1.2.840.10045.4.3.2"@[18] == '2');
    assert("1.2.840.10045.4.3.3"@.len() == 19 && "1.2.840.10045.4.3.3"@[18] == '3');
    assert("1.2.840.10045.4.3.4"@.len() == 19 && "1.2.840.10045.4.3.4"@[18] == '4');
    assert("1.2.840.10045.4.1"@.len() == 17);
}

/// A signature is accepted exactly if `ring` accepts it with the verifier of
/// its algorithm.
pub proof fn law_signature_is_what_ring_says(
    algorithm: Seq<char>,
    curve: Option<Seq<char>>,
    key: Seq<u8>,
    tbs: Seq<u8>,
    sig: Seq<u8>,
)
    ensures
        signature_verdict(algorithm, curve, key, tbs, sig) is Ok <==> signature_holds(
            algorithm,
            curve,
            key,
            tbs,
            sig,
        ),
{
    lemma_algorithms_differ();
    let all = seq![
        "1.2.840.113549.1.1.5"@,
        "1.2.840.113549.1.1.11"@,
        "1.2.840.113549.1.1.12"@,
        "1.2.840.113549.1.1.13"@,
        "1.2.840.10045.4.3.2"@,
        "1.2.840.10045.4.3.3"@,
        "1.2.840.10045.4.1"@,
        "1.2.840.10045.4.3.4"@,
    ];
    assert(all[0] != all[1] && all[0] != all[2] && all[0] != all[3] && all[0] != all[4] && all[0]
        != all[5]);
    assert(all[1] != all[2] && all[1] != all[3] && all[1] != all[4] && all[1] != all[5]);
    assert(all[2] != all[3] && all[2] != all[4] && all[2] != all[5]);
    assert(all[3] != all[4] && all[3] != all[5]);
    assert(all[4] != all[5]);
}

/// Each of the six verifiers is for one algorithm, and the two of ECDSA for one
/// curve each.
pub proof fn law_each_algorithm_has_its_verifier(algorithm: Seq<char>, curve: Option<Seq<char>>)
    ensures
        ({
            let found = scheme_for(algorithm, curve);
            let p256 = curve == Some("1.2.840.10045.3.1.7"@);
            let p384 = curve == Some("1.3.132.0.34"@);
            &&& is_scheme(found, SignatureScheme::RsaSha1) <==> algorithm
                == "1.2.840.113549.1.1.5"@
            &&& is_scheme(found, SignatureScheme::RsaSha256) <==> algorithm
                == "1.2.840.113549.1.1.11"@
            &&& is_scheme(found, SignatureScheme::RsaSha384) <==> algorithm
                == "1.2.840.113549.1.1.12"@
            &&& is_scheme(found, SignatureScheme::RsaSha512) <==> algorithm
                == "1.2.840.113549.1.1.13"@
            &&& is_scheme(found, SignatureScheme::EcdsaP256Sha256) <==> algorithm
                == "1.2.840.10045.4.3.2"@ && p256
            &&& is_scheme(found, SignatureScheme::EcdsaP384Sha384) <==> algorithm
                == "1.2.840.10045.4.3.3"@ && p384
        }),
{
    lemma_algorithms_differ();
    let all = seq![
        "1.2.840.113549.1.1.5"@,
        "1.2.840.113549.1.1.11"@,
        "1.2.840.113549.1.1.12"@,
        "1.2.840.113549.1.1.13"@,
        "1.2.840.10045.4.3.2"@,
        "1.2.840.10045.4.3.3"@,
        "1.2.840.10045.4.1"@,
        "1.2.840.10045.4.3.4"@,
    ];
    assert(all[0] != all[1] && all[0] != all[2] && all[0] != all[3] && all[0] != all[4] && all[0]
        != all[5]);
    assert(all[1] != all[2] && all[1] != all[3] && all[1] != all[4] && all[1] != all[5]);
    assert(all[2] != all[3] && all[2] != all[4] && all[2] != all[5]);
    assert(all[3] != all[4] && all[3] != all[5]);
    assert(all[4] != all[5]);
}

/// Whether the verifier that was found is `scheme`.
pub open spec fn is_scheme(
    found: Result<SignatureScheme, LinkErrorView>,
    scheme: SignatureScheme,
) -> bool {
    found == Ok::<SignatureScheme, LinkErrorView>(scheme)
}

/// What is said of a signature that is not accepted.
pub proof fn law_rejected_signature_is_explained(
    algorithm: Seq<char>,
    curve: Option<Seq<char>>,
    key: Seq<u8>,
    tbs: Seq<u8>,
    sig: Seq<u8>,
)
    requires
        signature_verdict(algorithm, curve, key, tbs, sig) is Err,
    ensures
        ({
            let says = signature_verdict(algorithm, curve, key, tbs, sig)->Err_0.message();
            let failed = "signature verification failed under "@ + algorithm;
            if algorithm == "1.2.840.113549.1.1.5"@ || algorithm == "1.2.840.113549.1.1.11"@
                || algorithm == "1.2.840.113549.1.1.12"@ || algorithm == "1.2.840.113549.1.1.13"@ {
                says == failed
            } else if algorithm == "1.2.840.10045.4.3.2"@ {
                says == if curve is None {
                    "ECDSA-SHA256 missing curve OID"@
                } else if curve == Some("1.2.840.10045.3.1.7"@) {
                    failed
                } else {
                    "ECDSA-SHA256 with unsupported curve OID "@ + curve->Some_0
                }
            } else if algorithm == "1.2.840.10045.4.3.3"@ {
                says == if curve is None {
                    "ECDSA-SHA384 missing curve OID"@
                } else if curve == Some("1.3.132.0.34"@) {
                    failed
                } else {
                    "ECDSA-SHA384 with unsupported curve OID "@ + curve->Some_0
                }
            } else if algorithm == "1.2.840.10045.4.1"@ {
                says == "ECDSA-SHA1 not supported (ring lacks the verifier)"@
            } else if algorithm == "1.2.840.10045.4.3.4"@ {
                says == "ECDSA-SHA512 not supported (ring lacks the verifier)"@
            } else {
                says == "unsupported signature algorithm OID "@ + algorithm
            }
        }),
{
    lemma_algorithms_differ();
    let all = seq![
        "1.2.840.113549.1.1.5"@,
        "1.2.840.113549.1.1.11"@,
        "1.2.840.113549.1.1.12"@,
        "1.2.840.113549.1.1.13"@,
        "1.2.840.10045.4.3.2"@,
        "1.2.840.10045.4.3.3"@,
        "1.2.840.10045.4.1"@,
        "1.2.840.10045.4.3.4"@,
    ];
    assert forall|i: int, j: int| 0 <= i < j < 8 implies all[i] != all[j] by {}
}

/// A link holds exactly if the one certificate is signed by the other. Where
/// the names do not fit, that is said, and else what is wrong with the signature.
pub proof fn law_link_holds_iff_signed(son: CertView, father: CertView)
    ensures
        link_verdict(son, father) is Ok <==> is_signed_by(son, father),
        son.issuer.raw != father.subject.raw ==> link_verdict(son, father)->Err_0.message()
            == "issuer/subject DER mismatch: son issuer="@ + son.issuer.text
            + ", father subject="@ + father.subject.text,
        son.issuer.raw == father.subject.raw ==> link_verdict(son, father) == signature_verdict(
            son.signature.algorithm,
            father.key.parameter_oid,
            father.key.bits,
            son.signature.tbs,
            son.signature.value,
        ),
{
    law_signature_is_what_ring_says(
        son.signature.algorithm,
        father.key.parameter_oid,
        father.key.bits,
        son.signature.tbs,
        son.signature.value,
    );
}

/// A chain of any length holds exactly if each certificate is signed by the
/// next one.
pub proof fn law_chain_holds_iff_each_is_signed(certs: Seq<CertView>)
    ensures
        chain_verdict(certs) is Ok <==> forall|i: int|
            0 <= i < certs.len() - 1 ==> is_signed_by(#[trigger] certs[i], certs[i + 1]),
        chain_verdict(certs) matches Err(e) ==> {
            &&& e.hop + 1 < certs.len()
            &&& !is_signed_by(certs[e.hop as int], certs[e.hop as int + 1])
            &&& forall|i: int| 0 <= i < e.hop ==> is_signed_by(#[trigger] certs[i], certs[i + 1])
            &&& e.message() == "hop "@ + decimal_of(e.hop) + " -> "@ + decimal_of(e.hop + 1)
        },
{
    law_chain_is_its_links(certs);
    assert forall|i: int| 0 <= i < certs.len() - 1 implies (link_verdict(
        #[trigger] certs[i],
        certs[i + 1],
    ) is Ok <==> is_signed_by(certs[i], certs[i + 1])) by {
        law_link_holds_iff_signed(certs[i], certs[i + 1]);
    }
    if chain_verdict(certs) is Ok {
        assert forall|i: int| 0 <= i < certs.len() - 1 implies is_signed_by(
            #[trigger] certs[i],
            certs[i + 1],
        ) by {
            assert(link_verdict(certs[i], certs[i + 1]) is Ok);
        }
    } else {
        let h = chain_verdict(certs)->Err_0.hop as int;
        assert(link_verdict(certs[h], certs[h + 1]) is Err);
        assert forall|i: int| 0 <= i < h implies is_signed_by(#[trigger] certs[i], certs[i + 1]) by {
            assert(link_verdict(certs[i], certs[i + 1]) is Ok);
        }
    }
}

/// The certificates of a chain are those that the parser reads from each
/// encoding, in their order.
pub proof fn law_certificates_are_read_one_by_one(ders: Seq<Seq<u8>>, certs: Seq<CertView>)
    ensures
        certs_read(ders) == Ok::<Seq<CertView>, CertErrorView>(certs) <==> certs.len()
            == ders.len() && forall|i: int|
            0 <= i < ders.len() ==> x509_read(#[trigger] ders[i]) == Ok::<CertView, Seq<char>>(
                certs[i],
            ),
    decreases ders.len(),
{
    if ders.len() == 0 {
        if certs.len() == 0 {
            assert(certs == Seq::<CertView>::empty());
        }
    } else {
        let front = ders.drop_last();
        let n = front.len() as int;
        if certs_read(ders) == Ok::<Seq<CertView>, CertErrorView>(certs) {
            let before = certs_read(front)->Ok_0;
            law_certificates_are_read_one_by_one(front, before);
            assert forall|i: int| 0 <= i < ders.len() implies x509_read(#[trigger] ders[i])
                == Ok::<CertView, Seq<char>>(certs[i]) by {
                if i < n {
                    assert(x509_read(front[i]) == Ok::<CertView, Seq<char>>(before[i]));
                }
            }
        }
        if certs.len() == ders.len() && forall|i: int|
            0 <= i < ders.len() ==> x509_read(#[trigger] ders[i]) == Ok::<CertView, Seq<char>>(
                certs[i],
            ) {
            let before = certs.drop_last();
            assert forall|i: int| 0 <= i < front.len() implies x509_read(#[trigger] front[i])
                == Ok::<CertView, Seq<char>>(before[i]) by {
                assert(x509_read(ders[i]) == Ok::<CertView, Seq<char>>(certs[i]));
            }
            law_certificates_are_read_one_by_one(front, before);
            assert(x509_read(ders[n]) == Ok::<CertView, Seq<char>>(certs[n]));
            assert(before.push(certs[n]) == certs);
        }
    }
}

/// Where an encoding holds no certificate, the error names the first such one,
/// counted from 1, and what the parser says of it.
pub proof fn law_first_bad_certificate_is_named(ders: Seq<Seq<u8>>)
    ensures
        certs_read(ders) matches Err(e) ==> {
            &&& 1 <= e.position <= ders.len()
            &&& x509_read(ders[e.position - 1]) == Err::<CertView, Seq<char>>(e.cause)
            &&& forall|i: int| 0 <= i < e.position - 1 ==> x509_read(#[trigger] ders[i]) is Ok
            &&& e.message() == "certificate #"@ + decimal_of(e.position)
                + " ASN.1 parse failed: "@ + e.cause
        },
    decreases ders.len(),
{
    if ders.len() > 0 {
        let front = ders.drop_last();
        let n = front.len() as int;
        law_first_bad_certificate_is_named(front);
        match certs_read(front) {
            Err(e) => {
                assert(front[e.position - 1] == ders[e.position - 1]);
                assert forall|i: int| 0 <= i < e.position - 1 implies x509_read(
                    #[trigger] ders[i],
                ) is Ok by {
                    assert(x509_read(front[i]) is Ok);
                }
            },
            Ok(before) => {
                law_certificates_are_read_one_by_one(front, before);
                assert forall|i: int| 0 <= i < n implies x509_read(#[trigger] ders[i]) is Ok by {
                    assert(x509_read(front[i]) is Ok);
                }
            },
        }
    }
}

/// The key of a PEM file is the one in the subject public key info that its
/// body is. There is none where the file is no text, has no body, or its body
/// is something else, and each of these has its own error.
pub proof fn law_anchor_is_the_key_in_its_file(pem: Seq<u8>, key: Seq<u8>)
    ensures
        anchor_key(pem) == Ok::<Seq<u8>, AnchorErrorView>(key) <==> valid_utf8(pem) && exists|
            der: Seq<u8>,
        | pem_decoded(decode_utf8(pem)) == Ok::<Seq<u8>, PemError>(der)
            && #[trigger] spki_bits(der) == Ok::<Seq<u8>, Seq<char>>(key),
        !valid_utf8(pem) ==> anchor_key(pem) is Err && anchor_key(pem)->Err_0.message()
            == "anchor PEM is not valid UTF-8"@,
        valid_utf8(pem) && pem_decoded(decode_utf8(pem)) is Err ==> anchor_key(pem) is Err
            && anchor_key(pem)->Err_0.message() == "anchor PEM body decode failed"@,
        forall|der: Seq<u8>|
            valid_utf8(pem) && pem_decoded(decode_utf8(pem)) == Ok::<Seq<u8>, PemError>(der)
                && #[trigger] spki_bits(der) is Err ==> anchor_key(pem) is Err
                && anchor_key(pem)->Err_0.message() == "anchor SPKI parse: "@ + spki_bits(
                der,
            )->Err_0,
{
    if valid_utf8(pem) && pem_decoded(decode_utf8(pem)) is Ok {
        let der = pem_decoded(decode_utf8(pem))->Ok_0;
        assert(spki_bits(der) is Ok || spki_bits(der) is Err);
    }
}

/// A root is of the kind of the first anchor with its key, and unknown if no
/// anchor has its key.
pub proof fn law_first_anchor_with_the_key_decides(key: Seq<u8>, anchors: Seq<AnchorView>, n: int)
    requires
        0 <= n <= anchors.len(),
        forall|i: int| 0 <= i < n ==> (#[trigger] anchors[i]).key != key,
    ensures
        n < anchors.len() && anchors[n].key == key ==> root_type_of(key, anchors)
            == anchors[n].kind,
        n == anchors.len() ==> root_type_of(key, anchors) == KeyboxRootType::Unknown,
    decreases n,
{
    if n > 0 {
        let rest = anchors.drop_first();
        assert(anchors[0].key != key);
        assert forall|i: int| 0 <= i < n - 1 implies (#[trigger] rest[i]).key != key by {
            assert(anchors[i + 1].key != key);
        }
        law_first_anchor_with_the_key_decides(key, rest, n - 1);
        if n < anchors.len() {
            assert(rest[n - 1] == anchors[n]);
        }
    }
}

proof fn lemma_root_type_of_sum(key: Seq<u8>, a: Seq<AnchorView>, b: Seq<AnchorView>)
    requires
        a.len() <= 1,
    ensures
        root_type_of(key, a + b) == if a.len() == 1 && a[0].key == key {
            a[0].kind
        } else {
            root_type_of(key, b)
        },
{
    if a.len() == 1 {
        assert((a + b)[0] == a[0]);
        assert((a + b).drop_first() == b);
    } else {
        assert(a + b == b);
    }
}

/// A root is known by the key in the file of one of the four roots, and by
/// nothing else. Where two files hold the same key, the first of Google, AOSP
/// EC, AOSP RSA, and Knox counts.
pub proof fn law_known_roots_are_tried_in_order(key: Seq<u8>, roots: RootKeys)
    ensures
        root_type_of(key, anchors_of(roots)) == (if anchor_key(roots.google@) == Ok::<
            Seq<u8>,
            AnchorErrorView,
        >(key) {
            KeyboxRootType::Google
        } else if anchor_key(roots.aosp_ec@) == Ok::<Seq<u8>, AnchorErrorView>(key) {
            KeyboxRootType::AospEc
        } else if anchor_key(roots.aosp_rsa@) == Ok::<Seq<u8>, AnchorErrorView>(key) {
            KeyboxRootType::AospRsa
        } else if anchor_key(roots.knox@) == Ok::<Seq<u8>, AnchorErrorView>(key) {
            KeyboxRootType::Knox
        } else {
            KeyboxRootType::Unknown
        }),
{
    let a = anchor_of(KeyboxRootType::Google, roots.google@);
    let b = anchor_of(KeyboxRootType::AospEc, roots.aosp_ec@);
    let c = anchor_of(KeyboxRootType::AospRsa, roots.aosp_rsa@);
    let d = anchor_of(KeyboxRootType::Knox, roots.knox@);
    let none = Seq::<AnchorView>::empty();
    assert(anchors_of(roots) == a + (b + (c + (d + none))));
    lemma_root_type_of_sum(key, a, b + (c + (d + none)));
    lemma_root_type_of_sum(key, b, c + (d + none));
    lemma_root_type_of_sum(key, c, d + none);
    lemma_root_type_of_sum(key, d, none);
}

/// The anchors are those of the files that hold a key, one for each, in the
/// order of the roots.
pub proof fn law_anchors_are_the_keys_of_the_roots(roots: RootKeys)
    ensures
        ({
            let (a, b) = (anchor_key(roots.google@), anchor_key(roots.aosp_ec@));
            let (c, d) = (anchor_key(roots.aosp_rsa@), anchor_key(roots.knox@));
            anchors_of(roots) == (if a is Ok {
                seq![AnchorView { kind: KeyboxRootType::Google, key: a->Ok_0 }]
            } else {
                seq![]
            }) + (if b is Ok {
                seq![AnchorView { kind: KeyboxRootType::AospEc, key: b->Ok_0 }]
            } else {
                seq![]
            }) + (if c is Ok {
                seq![AnchorView { kind: KeyboxRootType::AospRsa, key: c->Ok_0 }]
            } else {
                seq![]
            }) + (if d is Ok {
                seq![AnchorView { kind: KeyboxRootType::Knox, key: d->Ok_0 }]
            } else {
                seq![]
            })
        }),
{
}

/// Whether `view` is the verdict on a key with the public half `public`: it
/// matches exactly if that is the leaf's, byte for byte. One that cannot be
/// encoded does not match, which is said.
pub open spec fn is_verdict_on(
    view: MatchView,
    family: Seq<char>,
    public: Result<Seq<u8>, Seq<char>>,
    leaf_spki: Seq<u8>,
) -> bool {
    match public {
        Ok(der) => {
            &&& view.verdict == KeyMatch::Matched <==> der == leaf_spki
            &&& view.verdict == KeyMatch::Mismatched <==> der != leaf_spki
            &&& view.errors.len() == 0
        },
        Err(e) => {
            &&& view.verdict == KeyMatch::Mismatched
            &&& view.errors == seq![family + " public-side DER encode failed: "@ + e]
        },
    }
}

/// The first decoder that reads a private key decides: RSA in PKCS#8 form, RSA
/// in PKCS#1 form, P-256, then P-384. A key that none reads does not match.
pub proof fn law_private_key_matches_iff_same_public_key(
    private_pem: Seq<char>,
    leaf_spki: Seq<u8>,
)
    ensures
        ({
            let pem = unindented(private_pem);
            let view = private_key_verdict(private_pem, leaf_spki);
            let (first, second) = (rsa_pkcs8_public(pem), rsa_pkcs1_public(pem));
            let (third, fourth) = (p256_public(pem), p384_public(pem));
            &&& first matches Some(public) ==> is_verdict_on(view, "RSA"@, public, leaf_spki)
            &&& first is None ==> (second matches Some(public) ==> is_verdict_on(
                view,
                "RSA"@,
                public,
                leaf_spki,
            ))
            &&& first is None && second is None ==> (third matches Some(public) ==> is_verdict_on(
                view,
                "P-256"@,
                public,
                leaf_spki,
            ))
            &&& first is None && second is None && third is None ==> (fourth matches Some(public)
                ==> is_verdict_on(view, "P-384"@, public, leaf_spki))
            &&& first is None && second is None && third is None && fourth is None
                ==> view.verdict == KeyMatch::Mismatched && view.errors == seq![
                "private key present but unparseable (encrypted PKCS#8, unsupported curve, or corrupt)"@,
            ]
        }),
{
}

/// A public half matches exactly if it is the leaf's, byte for byte, whatever
/// the kind of key. Where no decoder found one, nothing is said of it, and in
/// the end the key counts as one that does not match.
pub proof fn law_public_half_matches_iff_same(
    family: Seq<char>,
    public: Result<Seq<u8>, Seq<char>>,
    leaf_spki: Seq<u8>,
    found: MatchView,
)
    ensures
        public_verdict(family, Some(public), leaf_spki) is Some,
        is_verdict_on(
            public_verdict(family, Some(public), leaf_spki)->Some_0,
            family,
            public,
            leaf_spki,
        ),
        public_verdict(family, None, leaf_spki) is None,
        settled(Some(found)) == found,
        settled(None).verdict == KeyMatch::Mismatched,
        settled(None).errors == seq![
            "private key present but unparseable (encrypted PKCS#8, unsupported curve, or corrupt)"@,
        ],
{
}

/// From 2020 on, a certificate is valid exactly from its first moment to its
/// last, both included. On a clock that shows an earlier time every certificate
/// counts as valid, which is said.
pub proof fn law_certificate_is_valid_in_its_period(leaf: CertView, clock: Clock)
    ensures
        clock.secs >= 1_577_836_800 ==> {
            &&& validity_at(leaf, clock).ok <==> leaf.not_before.nanos <= clock.nanos && clock.nanos
                <= leaf.not_after.nanos
            &&& validity_at(leaf, clock).errors.len() == 0
        },
        clock.secs < 1_577_836_800 ==> {
            &&& validity_at(leaf, clock).ok
            &&& validity_at(leaf, clock).errors == seq![
                "system clock pre-2020, skipping cert validity check"@,
            ]
        },
{
}

/// The leaf of a chain is found exactly if its serial number is that of an
/// entry, however long it is; what is found is that number and the reason.
pub proof fn law_listed_leaf_is_found(certs: Seq<CertView>, entries: Map<Seq<char>, Json>)
    ensures
        certs.len() == 0 ==> revoked(certs, entries) is None,
        certs.len() > 0 && !entries.contains_key(certs[0].serial) ==> revoked(certs, entries)
            is None,
        certs.len() > 0 && entries.contains_key(certs[0].serial) ==> revoked(certs, entries)
            == Some((certs[0].serial, reason_of(entries[certs[0].serial]))),
{
}

/// The reason of an entry is the text of its member `reason`, and `UNKNOWN`
/// where it has no such member or that is no text.
pub proof fn law_reason_is_that_of_the_entry(members: Map<Seq<char>, Json>, entry: Json)
    ensures
        members.contains_key("reason"@) ==> (members["reason"@] matches Json::Text(t)
            ==> reason_of(Json::Object(members)) == t),
        members.contains_key("reason"@) && members["reason"@] !is Text ==> reason_of(
            Json::Object(members),
        ) == "UNKNOWN"@,
        !members.contains_key("reason"@) ==> reason_of(Json::Object(members)) == "UNKNOWN"@,
        entry !is Object ==> reason_of(entry) == "UNKNOWN"@,
{
}

/// The entries of a list are the members of its member `entries`; there are
/// none where it has no such member or that is no object.
pub proof fn law_entries_are_those_of_the_list(members: Map<Seq<char>, Json>, list: Json)
    ensures
        members.contains_key("entries"@) ==> (members["entries"@] matches Json::Object(entries)
            ==> entries_of(Json::Object(members)) == entries),
        members.contains_key("entries"@) && members["entries"@] !is Object ==> entries_of(
            Json::Object(members),
        ) == Map::<Seq<char>, Json>::empty(),
        !members.contains_key("entries"@) ==> entries_of(Json::Object(members)) == Map::<
            Seq<char>,
            Json,
        >::empty(),
        list !is Object ==> entries_of(list) == Map::<Seq<char>, Json>::empty(),
{
}

/// Whether a certificate is one in PEM form that is not blank.
pub open spec fn is_pem_certificate(certificate: Certificate) -> bool {
    let format = certificate.format@;
    &&& format.len() == 3
    &&& same_letter(format[0], 'p') && same_letter(format[1], 'e') && same_letter(format[2], 'm')
    &&& trimmed(certificate.text@).len() > 0
}

/// Every certificate in PEM form that is not blank is read, in its order and
/// without the white space around it; no other is.
pub proof fn law_pem_certificates_alone_are_read(
    certificates: Seq<Certificate>,
    certificate: Certificate,
)
    ensures
        pem_texts(Seq::<Certificate>::empty()).len() == 0,
        pem_texts(certificates.push(certificate)) == if is_pem_certificate(certificate) {
            pem_texts(certificates).push(trimmed(certificate.text@))
        } else {
            pem_texts(certificates)
        },
{
    reveal(Seq::filter);
    reveal_strlit("pem");
    let all = certificates.push(certificate);
    assert(all.drop_last() == certificates);
    assert(all.last() == certificate);
    let format = certificate.format@;
    law_case_of_ascii_letters_alone_is_ignored(format, "pem"@);
    assert("pem"@.len() == 3 && "pem"@[0] == 'p' && "pem"@[1] == 'e' && "pem"@[2] == 'm');
    assert(is_pem(certificate) <==> is_pem_certificate(certificate)) by {
        if is_pem_certificate(certificate) {
            assert forall|i: int| 0 <= i < format.len() implies same_letter(
                #[trigger] format[i],
                "pem"@[i],
            ) by {
                assert(i == 0 || i == 1 || i == 2);
            }
        }
        if is_pem(certificate) {
            assert(same_letter(format[0], "pem"@[0]));
            assert(same_letter(format[1], "pem"@[1]));
            assert(same_letter(format[2], "pem"@[2]));
        }
    }
    let pick = |c: Certificate| is_pem(c);
    let text = |c: Certificate| trimmed(c.text@);
    if is_pem(certificate) {
        assert(all.filter(pick) == certificates.filter(pick).push(certificate));
        assert(all.filter(pick).map_values(text) == certificates.filter(pick).map_values(
            text,
        ).push(trimmed(certificate.text@)));
    }
}

/// Whether a report says of whom it is, and nothing of a chain.
pub open spec fn is_blank(report: KeyReportView, place: KeyPlace) -> bool {
    &&& is_about(report, place)
    &&& report.leaf_serial.len() == 0 && report.leaf_subject.len() == 0
    &&& report.not_before.len() == 0 && report.not_after.len() == 0
    &&& !report.validity_ok && !report.chain_valid && !report.ok
    &&& report.root_type == KeyboxRootType::Unknown
    &&& report.key_match == KeyMatch::Skipped
    &&& report.revocation_serial is None && report.revocation_reason is None
}

/// Whether a report names the place of its key, its algorithm, and the device.
pub open spec fn is_about(report: KeyReportView, place: KeyPlace) -> bool {
    &&& report.keybox_index == place.keybox_index
    &&& report.key_index == place.key_index
    &&& report.algorithm == if place.key.algorithm@.len() == 0 {
        "Unknown"@
    } else {
        place.key.algorithm@
    }
    &&& report.device_id == if place.device_id.len() == 0 {
        "Unknown"@
    } else {
        place.device_id
    }
}

/// What is said of the declared number of certificates: nothing, unless it is a
/// number and another than that of the certificates.
pub open spec fn count_errors(declared: Option<TextNode>, actual: nat) -> Seq<Seq<char>> {
    if declared is Some && usize_of(trimmed(declared->Some_0.text@)) is Some && usize_of(
        trimmed(declared->Some_0.text@),
    )->Some_0 != actual {
        seq![
            "NumberOfCertificates declared="@ + decimal_of(
                usize_of(trimmed(declared->Some_0.text@))->Some_0 as nat,
            ) + " differs from actual="@ + decimal_of(actual),
        ]
    } else {
        seq![]
    }
}

/// A key without certificates that can be read is not valid, and the report
/// says why and nothing more.
pub proof fn law_unreadable_chain_is_explained(
    place: KeyPlace,
    entries: Map<Seq<char>, Json>,
    anchors: Seq<AnchorView>,
    clock: Clock,
)
    ensures
        ({
            let report = key_report(place, entries, anchors, clock);
            let chain = place.key.chain->Some_0;
            let pems = pem_texts(chain.certificates@);
            let ders = pem_chain_decoded(pems)->Ok_0;
            &&& place.key.chain is None ==> is_blank(report, place) && report.chain_len == 0
                && report.errors == seq!["missing CertificateChain"@]
            &&& place.key.chain is Some && pems.len() == 0 ==> is_blank(report, place)
                && report.chain_len == 0 && report.errors == seq![
                "no Certificate[@format=\"pem\"] entries in chain"@,
            ]
            &&& place.key.chain is Some && pems.len() > 0 && pem_chain_decoded(pems) is Err
                ==> is_blank(report, place) && report.chain_len == 0 && report.errors == seq![
                "PEM decode failed: certificate #"@ + decimal_of(
                    pem_chain_decoded(pems)->Err_0.position as nat,
                ) + " PEM decode"@,
            ]
            &&& place.key.chain is Some && pems.len() > 0 && pem_chain_decoded(pems) is Ok
                && certs_read(ders) is Err ==> is_blank(report, place) && report.chain_len
                == pems.len() && report.errors == count_errors(chain.declared, pems.len()).push(
                certs_read(ders)->Err_0.message(),
            )
        }),
{
    if place.key.chain is Some {
        let pems = pem_texts(place.key.chain->Some_0.certificates@);
        if pem_chain_decoded(pems) is Ok {
            lemma_pem_chain_len(pems);
        } else if pems.len() > 0 {
            lemma_message_of_bad_text(pem_chain_decoded(pems)->Err_0.position as nat);
        }
    }
}

proof fn lemma_message_of_bad_text(n: nat)
    ensures
        "PEM decode failed: "@ + ("certificate #"@ + decimal_of(n) + " PEM decode"@)
            == "PEM decode failed: certificate #"@ + decimal_of(n) + " PEM decode"@,
{
    reveal_strlit("PEM decode failed: ");
    reveal_strlit("certificate #");
    reveal_strlit("PEM decode failed: certificate #");
    assert("PEM decode failed: "@ + "certificate #"@ == "PEM decode failed: certificate #"@);
    assert("PEM decode failed: "@ + ("certificate #"@ + decimal_of(n) + " PEM decode"@)
        == "PEM decode failed: "@ + "certificate #"@ + decimal_of(n) + " PEM decode"@);
}

/// Whether the certificates of a key are `certs`.
pub open spec fn has_certificates(place: KeyPlace, certs: Seq<CertView>) -> bool {
    let pems = pem_texts(place.key.chain->Some_0.certificates@);
    &&& place.key.chain is Some
    &&& certs.len() == pems.len() > 0
    &&& forall|i: int|
        0 <= i < certs.len() ==> (pem_decoded(#[trigger] pems[i]) is Ok && x509_read(
            pem_decoded(pems[i])->Ok_0,
        ) == Ok::<CertView, Seq<char>>(certs[i]))
}

proof fn lemma_certificates_are_read(place: KeyPlace, certs: Seq<CertView>)
    requires
        has_certificates(place, certs),
    ensures
        ({
            let pems = pem_texts(place.key.chain->Some_0.certificates@);
            &&& pem_chain_decoded(pems) is Ok
            &&& pem_chain_decoded(pems)->Ok_0.len() == certs.len()
            &&& certs_read(pem_chain_decoded(pems)->Ok_0) == Ok::<Seq<CertView>, CertErrorView>(
                certs,
            )
        }),
{
    let pems = pem_texts(place.key.chain->Some_0.certificates@);
    let ders = Seq::new(pems.len(), |i: int| pem_decoded(pems[i])->Ok_0);
    assert forall|i: int| 0 <= i < pems.len() implies pem_decoded(#[trigger] pems[i]) == Ok::<
        Seq<u8>,
        PemError,
    >(ders[i]) by {}
    law_pem_chain_is_its_texts(pems, ders);
    assert forall|i: int| 0 <= i < ders.len() implies x509_read(#[trigger] ders[i]) == Ok::<
        CertView,
        Seq<char>,
    >(certs[i]) by {
        assert(pem_decoded(pems[i]) is Ok);
    }
    law_certificates_are_read_one_by_one(ders, certs);
}

/// The chain of a key is valid exactly if it has at least two certificates,
/// however many, each is signed by the next one, and the last, if it is that of
/// a known root, is signed by itself. The root is the one whose key it has.
pub proof fn law_chain_is_valid_iff_signed_to_the_root(
    place: KeyPlace,
    certs: Seq<CertView>,
    entries: Map<Seq<char>, Json>,
    anchors: Seq<AnchorView>,
    clock: Clock,
)
    requires
        has_certificates(place, certs),
    ensures
        ({
            let report = key_report(place, entries, anchors, clock);
            &&& report.chain_len == certs.len()
            &&& report.root_type == root_type_of(certs.last().key.bits, anchors)
            &&& report.chain_valid <==> {
                &&& certs.len() >= 2
                &&& forall|i: int|
                    0 <= i < certs.len() - 1 ==> is_signed_by(#[trigger] certs[i], certs[i + 1])
                &&& report.root_type == KeyboxRootType::Unknown || is_signed_by(
                    certs.last(),
                    certs.last(),
                )
            }
        }),
{
    lemma_certificates_are_read(place, certs);
    law_chain_holds_iff_each_is_signed(certs);
    law_link_holds_iff_signed(certs.last(), certs.last());
}

/// A key is valid exactly if it has at least two certificates, each signed by
/// the next one, the last signed by itself and with the key of an anchor, the
/// first valid at the time, and no private key that contradicts it.
pub proof fn law_key_is_valid_iff(
    place: KeyPlace,
    certs: Seq<CertView>,
    entries: Map<Seq<char>, Json>,
    anchors: Seq<AnchorView>,
    clock: Clock,
)
    requires
        has_certificates(place, certs),
    ensures
        key_report(place, entries, anchors, clock).ok <==> {
            &&& certs.len() >= 2
            &&& forall|i: int|
                0 <= i < certs.len() - 1 ==> is_signed_by(#[trigger] certs[i], certs[i + 1])
            &&& is_signed_by(certs.last(), certs.last())
            &&& root_type_of(certs.last().key.bits, anchors) != KeyboxRootType::Unknown
            &&& clock.secs < 1_577_836_800 || (certs[0].not_before.nanos <= clock.nanos
                && clock.nanos <= certs[0].not_after.nanos)
            &&& place.key.private_key is None || trimmed(
                place.key.private_key->Some_0.text@,
            ).len() == 0 || private_key_verdict(
                trimmed(place.key.private_key->Some_0.text@),
                certs[0].key.spki,
            ).verdict != KeyMatch::Mismatched
        },
{
    lemma_certificates_are_read(place, certs);
    law_chain_holds_iff_each_is_signed(certs);
    law_link_holds_iff_signed(certs.last(), certs.last());
}

/// What the report says of the leaf, of the private key, and of revocation.
pub proof fn law_report_tells_of_the_leaf(
    place: KeyPlace,
    certs: Seq<CertView>,
    entries: Map<Seq<char>, Json>,
    anchors: Seq<AnchorView>,
    clock: Clock,
)
    requires
        has_certificates(place, certs),
    ensures
        ({
            let report = key_report(place, entries, anchors, clock);
            let leaf = certs[0];
            let private = place.key.private_key;
            let text = trimmed(private->Some_0.text@);
            &&& is_about(report, place)
            &&& report.leaf_serial == leaf.serial
            &&& report.leaf_subject == leaf.subject.text
            &&& report.not_before == leaf.not_before.text
            &&& report.not_after == leaf.not_after.text
            &&& report.validity_ok <==> clock.secs < 1_577_836_800 || (leaf.not_before.nanos
                <= clock.nanos && clock.nanos <= leaf.not_after.nanos)
            &&& private is None || text.len() == 0 ==> report.key_match == KeyMatch::Skipped
            &&& private is Some && text.len() > 0 ==> report.key_match == private_key_verdict(
                text,
                leaf.key.spki,
            ).verdict
            &&& entries.contains_key(leaf.serial) ==> report.revocation_serial == Some(leaf.serial)
                && report.revocation_reason == Some(reason_of(entries[leaf.serial]))
            &&& !entries.contains_key(leaf.serial) ==> report.revocation_serial is None
                && report.revocation_reason is None
        }),
{
    lemma_certificates_are_read(place, certs);
}

/// What is said of the links of a chain.
pub open spec fn link_errors(certs: Seq<CertView>) -> Seq<Seq<char>> {
    if certs.len() < 2 {
        seq!["certificate chain has fewer than 2 entries (needs leaf + root)"@]
    } else {
        match chain_verdict(certs) {
            Ok(_) => seq![],
            Err(e) => seq!["chain verification failed: "@ + e.message()],
        }
    }
}

/// What is said of a root.
pub open spec fn root_errors(root: CertView, anchors: Seq<AnchorView>) -> Seq<Seq<char>> {
    if root_type_of(root.key.bits, anchors) == KeyboxRootType::Unknown {
        seq!["root certificate not recognized (Google/AOSP-EC/AOSP-RSA/Knox)"@]
    } else {
        match link_verdict(root, root) {
            Ok(_) => seq![],
            Err(e) => seq!["root self-signature failed: "@ + e.message()],
        }
    }
}

/// What is said of a private key.
pub open spec fn private_errors(private: Option<TextNode>, leaf: CertView) -> Seq<Seq<char>> {
    if private is Some && trimmed(private->Some_0.text@).len() > 0 {
        private_key_verdict(trimmed(private->Some_0.text@), leaf.key.spki).errors
    } else {
        seq![]
    }
}

/// The links of a chain of any length hold exactly if there are at least two
/// certificates and each is signed by the next one.
pub proof fn law_links_hold_iff_each_is_signed(certs: Seq<CertView>)
    ensures
        links_part(certs).ok <==> certs.len() >= 2 && forall|i: int|
            0 <= i < certs.len() - 1 ==> is_signed_by(#[trigger] certs[i], certs[i + 1]),
        links_part(certs).errors == link_errors(certs),
        links_part(certs).ok <==> links_part(certs).errors.len() == 0,
{
    law_chain_holds_iff_each_is_signed(certs);
}

/// A root passes exactly if it is of no known kind or is signed by itself; it
/// passes without an error only if it is both known and signed by itself.
pub proof fn law_root_passes_iff_self_signed(root: CertView, kind: KeyboxRootType)
    ensures
        root_part(root, kind).ok <==> kind == KeyboxRootType::Unknown || is_signed_by(root, root),
        root_part(root, kind).errors.len() == 0 <==> kind != KeyboxRootType::Unknown
            && is_signed_by(root, root),
        kind == KeyboxRootType::Unknown ==> root_part(root, kind).errors == seq![
            "root certificate not recognized (Google/AOSP-EC/AOSP-RSA/Knox)"@,
        ],
        kind != KeyboxRootType::Unknown ==> (link_verdict(root, root) matches Err(e) ==> root_part(
            root,
            kind,
        ).errors == seq!["root self-signature failed: "@ + e.message()]),
{
    law_link_holds_iff_signed(root, root);
}

/// The declared number of certificates is held against the actual one, and a
/// private key that is there and not blank against the leaf.
pub proof fn law_declared_number_and_private_key(
    declared: Option<TextNode>,
    actual: nat,
    private: Option<TextNode>,
    leaf: CertView,
)
    ensures
        declared_errors(declared, actual) == count_errors(declared, actual),
        private_part(private, leaf).errors == private_errors(private, leaf),
        private is None ==> private_part(private, leaf).verdict == KeyMatch::Skipped,
        private matches Some(node) ==> private_part(private, leaf).verdict == if trimmed(
            node.text@,
        ).len() == 0 {
            KeyMatch::Skipped
        } else {
            private_key_verdict(trimmed(node.text@), leaf.key.spki).verdict
        },
{
}

/// Looking at the certificates of a key keeps what its report says of the
/// place, the names, and the errors so far, whatever else the report held, and
/// fills in the rest.
pub proof fn law_inspection_fills_in_the_report(
    base: KeyReportView,
    private: Option<TextNode>,
    certs: Seq<CertView>,
    entries: Map<Seq<char>, Json>,
    anchors: Seq<AnchorView>,
    clock: Clock,
)
    requires
        certs.len() > 0,
    ensures
        ({
            let report = chain_report(base, private, certs, entries, anchors, clock);
            let leaf = certs[0];
            &&& report.keybox_index == base.keybox_index && report.key_index == base.key_index
            &&& report.algorithm == base.algorithm && report.device_id == base.device_id
            &&& report.leaf_serial == leaf.serial && report.leaf_subject == leaf.subject.text
            &&& report.not_before == leaf.not_before.text
            &&& report.not_after == leaf.not_after.text
            &&& report.chain_len == certs.len()
            &&& report.root_type == root_type_of(certs.last().key.bits, anchors)
            &&& report.validity_ok <==> clock.secs < 1_577_836_800 || (leaf.not_before.nanos
                <= clock.nanos && clock.nanos <= leaf.not_after.nanos)
            &&& report.chain_valid <==> {
                &&& certs.len() >= 2
                &&& forall|i: int|
                    0 <= i < certs.len() - 1 ==> is_signed_by(#[trigger] certs[i], certs[i + 1])
                &&& report.root_type == KeyboxRootType::Unknown || is_signed_by(
                    certs.last(),
                    certs.last(),
                )
            }
            &&& report.key_match == private_part(private, leaf).verdict
            &&& report.ok <==> report.chain_valid && report.validity_ok && report.root_type
                != KeyboxRootType::Unknown && report.key_match != KeyMatch::Mismatched
            &&& report.errors == base.errors + (if clock.secs < 1_577_836_800 {
                seq!["system clock pre-2020, skipping cert validity check"@]
            } else {
                seq![]
            }) + link_errors(certs) + root_errors(certs.last(), anchors) + private_errors(
                private,
                leaf,
            )
            &&& entries.contains_key(leaf.serial) ==> report.revocation_serial == Some(leaf.serial)
                && report.revocation_reason == Some(reason_of(entries[leaf.serial]))
            &&& !entries.contains_key(leaf.serial) ==> report.revocation_serial is None
                && report.revocation_reason is None
        }),
{
    law_chain_holds_iff_each_is_signed(certs);
    law_link_holds_iff_signed(certs.last(), certs.last());
}

/// The errors of a key are told in the order of the checks: the declared
/// number, the clock, the links, the root, and the private key.
pub proof fn law_errors_come_in_the_order_of_the_checks(
    place: KeyPlace,
    certs: Seq<CertView>,
    entries: Map<Seq<char>, Json>,
    anchors: Seq<AnchorView>,
    clock: Clock,
)
    requires
        has_certificates(place, certs),
    ensures
        key_report(place, entries, anchors, clock).errors == count_errors(
            place.key.chain->Some_0.declared,
            certs.len(),
        ) + (if clock.secs < 1_577_836_800 {
            seq!["system clock pre-2020, skipping cert validity check"@]
        } else {
            seq![]
        }) + link_errors(certs) + root_errors(certs.last(), anchors) + private_errors(
            place.key.private_key,
            certs[0],
        ),
{
    lemma_certificates_are_read(place, certs);
}

} // verus!
