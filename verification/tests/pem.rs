use keybox::pem::{
    decode_pem_body, decode_pem_chain, strip_pem_indent, PemChainError, PemError,
    MAX_PEM_BODY_BYTES,
};

fn armored(body: &str) -> String {
    format!("-----BEGIN CERTIFICATE-----\n{body}\n-----END CERTIFICATE-----\n")
}

#[test]
fn pem_decode_strips_armor() {
    let pem = "-----BEGIN CERTIFICATE-----\nAAEC\n-----END CERTIFICATE-----\n";
    assert_eq!(decode_pem_body(pem).unwrap(), vec![0x00, 0x01, 0x02]);
}

#[test]
fn pem_decode_rejects_missing_header() {
    assert!(decode_pem_body("not pem").is_err());
    assert_eq!(decode_pem_body("not pem").unwrap_err(), PemError::NoHeader);
    assert_eq!(PemError::NoHeader.message(), "no PEM header found");
}

#[test]
fn pem_decode_rejects_oversized_body() {
    let huge = "-".repeat(MAX_PEM_BODY_BYTES + 100);
    let pem = format!("-----BEGIN X-----\n{huge}\n-----END X-----\n");
    assert!(decode_pem_body(&pem).is_err());
    assert_eq!(decode_pem_body(&pem).unwrap_err(), PemError::BodyTooLarge);
    assert_eq!(PemError::BodyTooLarge.message(), "PEM body exceeds 65536 byte cap");
}

#[test]
fn pem_indent_stripper_normalizes() {
    let input = "    line1\n  line2\nline3";
    assert_eq!(strip_pem_indent(input), "line1\nline2\nline3");
}

#[test]
fn a_body_of_the_largest_size_decodes() {
    let full = "A".repeat(MAX_PEM_BODY_BYTES);
    assert_eq!(decode_pem_body(&armored(&full)).unwrap().len(), MAX_PEM_BODY_BYTES / 4 * 3);
    let cut = format!("{}\n{}", &full[..40_000], &full[40_000..]);
    assert_eq!(decode_pem_body(&armored(&cut)).unwrap().len(), MAX_PEM_BODY_BYTES / 4 * 3);
    let more = format!("{full}\nAAAA");
    assert_eq!(decode_pem_body(&armored(&more)).unwrap_err(), PemError::BodyTooLarge);
}

#[test]
fn base64_is_strict() {
    assert_eq!(decode_pem_body(&armored("AQ==")).unwrap(), vec![1]);
    assert_eq!(decode_pem_body(&armored("AQI=")).unwrap(), vec![1, 2]);
    assert_eq!(decode_pem_body(&armored("+/+/")).unwrap(), vec![0xfb, 0xff, 0xbf]);
    assert_eq!(decode_pem_body(&armored("")).unwrap(), Vec::<u8>::new());
    // Padding is required, bits after the end are not, nor is another alphabet.
    for wrong in ["AQ", "AR==", "A", "-_-_", "AQ=A", "A Q="] {
        assert_eq!(decode_pem_body(&armored(wrong)).unwrap_err(), PemError::Base64, "{wrong}");
    }
    assert_eq!(PemError::Base64.message(), "PEM body base64 decode");
}

#[test]
fn text_around_the_armor_is_ignored() {
    let pem = "Subject: x\n  -----BEGIN A-----\r\n  AA\n\n EC \n-----END A-----\n!!!\n";
    assert_eq!(decode_pem_body(pem).unwrap(), vec![0x00, 0x01, 0x02]);
    // A second header inside the body is skipped, and a body may lack its end.
    let pem = "-----BEGIN A-----\nAA\n-----BEGIN B-----\nEC";
    assert_eq!(decode_pem_body(pem).unwrap(), vec![0x00, 0x01, 0x02]);
    // What closes before anything opened ends the text.
    let pem = "-----END A-----\n-----BEGIN A-----\nAAEC\n-----END A-----";
    assert_eq!(decode_pem_body(pem).unwrap_err(), PemError::NoHeader);
}

#[test]
fn the_first_bad_text_of_a_chain_is_named() {
    let good = armored("AAEC");
    let chain = vec![good.clone(), armored("AwQF")];
    assert_eq!(decode_pem_chain(&chain).unwrap(), vec![vec![0, 1, 2], vec![3, 4, 5]]);
    let chain = vec![good, "nothing".to_string(), armored("?")];
    let error = decode_pem_chain(&chain).unwrap_err();
    assert_eq!(error, PemChainError { position: 2, cause: PemError::NoHeader });
    assert_eq!(error.message(), "certificate #2 PEM decode");
    assert_eq!(decode_pem_chain(&Vec::new()).unwrap(), Vec::<Vec<u8>>::new());
}

#[test]
fn stripping_keeps_the_ends_of_lines() {
    assert_eq!(strip_pem_indent(" a \r\n\tb  \n"), "a \nb  ");
    assert_eq!(strip_pem_indent(""), "");
    assert_eq!(strip_pem_indent("\n\n"), "\n");
}
