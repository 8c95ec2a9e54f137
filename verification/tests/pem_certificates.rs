use k8s_scale_app_rs::pem_bundle::{
    certificates_of, extra_ca_certificates, is_certificate_tag, merge_root_certs,
    parse_pem_certificates, CaBundleError, PemBlock,
};

fn make_pem(tag: &str, content: Vec<u8>) -> String {
    pem::encode(&pem::Pem::new(tag, content))
}

#[test]
fn parse_pem_certificates_single_block() {
    let text = make_pem("CERTIFICATE", vec![1, 2, 3, 4]);
    let parsed = parse_pem_certificates(text.as_bytes()).unwrap();
    assert_eq!(parsed, vec![vec![1, 2, 3, 4]]);
}

#[test]
fn parse_pem_certificates_multiple_chain() {
    let mut text = make_pem("CERTIFICATE", vec![1; 4]);
    text.push_str(&make_pem("CERTIFICATE", vec![2; 4]));
    text.push_str(&make_pem("CERTIFICATE", vec![3; 4]));
    let parsed = parse_pem_certificates(text.as_bytes()).unwrap();
    assert_eq!(parsed, vec![vec![1; 4], vec![2; 4], vec![3; 4]]);
}

#[test]
fn parse_pem_certificates_filters_non_certificate_blocks() {
    let mut text = make_pem("CERTIFICATE", vec![7; 4]);
    text.push_str(&make_pem("PRIVATE KEY", vec![9; 4]));
    text.push_str(&make_pem("PUBLIC KEY", vec![11; 4]));
    text.push_str(&make_pem("CERTIFICATE", vec![13; 4]));
    let parsed = parse_pem_certificates(text.as_bytes()).unwrap();
    assert_eq!(parsed, vec![vec![7; 4], vec![13; 4]]);
}

#[test]
fn parse_pem_certificates_empty_input() {
    let parsed = parse_pem_certificates(b"").unwrap();
    assert!(parsed.is_empty());
}

#[test]
fn parse_pem_certificates_rejects_malformed_input() {
    let bad = b"-----BEGIN CERTIFICATE-----\nnot base64 !@#\n-----END CERTIFICATE-----\n";
    assert!(parse_pem_certificates(bad).is_err());
}

#[test]
fn parse_pem_certificates_reports_the_parser_message() {
    let bad = b"-----BEGIN CERTIFICATE-----\nAQID\n-----END CERTIFICATE X-----\n";
    let err = parse_pem_certificates(bad).unwrap_err();
    assert_eq!(
        err.source,
        pem::PemError::MismatchedTags(String::from("CERTIFICATE"), String::from("CERTIFICATE X"))
    );
}

#[test]
fn parse_pem_certificates_ignores_text_around_blocks() {
    let mut text = String::from("# corporate chain\n");
    text.push_str(&make_pem("CERTIFICATE", vec![5, 6]));
    text.push_str("trailing comment without markers\n");
    let parsed = parse_pem_certificates(text.as_bytes()).unwrap();
    assert_eq!(parsed, vec![vec![5, 6]]);
}

#[test]
fn certificates_of_keeps_only_certificate_sections_in_order() {
    let blocks = vec![
        PemBlock { tag: b"PRIVATE KEY".to_vec(), contents: vec![1] },
        PemBlock { tag: b"CERTIFICATE".to_vec(), contents: vec![2] },
        PemBlock { tag: b"CERTIFICATES".to_vec(), contents: vec![3] },
        PemBlock { tag: b"CERTIFICATE".to_vec(), contents: vec![4, 4] },
    ];
    assert_eq!(certificates_of(&blocks), vec![vec![2], vec![4, 4]]);
    assert!(certificates_of(&Vec::new()).is_empty());
}

#[test]
fn is_certificate_tag_matches_exactly() {
    assert!(is_certificate_tag(b"CERTIFICATE"));
    assert!(!is_certificate_tag(b"certificate"));
    assert!(!is_certificate_tag(b"CERTIFICAT"));
    assert!(!is_certificate_tag(b"TRUSTED CERTIFICATE"));
    assert!(!is_certificate_tag(b""));
}

#[test]
fn extra_ca_certificates_accepts_a_chain() {
    let mut text = make_pem("CERTIFICATE", vec![1; 3]);
    text.push_str(&make_pem("CERTIFICATE", vec![2; 3]));
    let certs = extra_ca_certificates(text.as_bytes()).unwrap();
    assert_eq!(certs, vec![vec![1; 3], vec![2; 3]]);
}

#[test]
fn extra_ca_certificates_refuses_bundle_without_certificates() {
    let text = make_pem("PRIVATE KEY", vec![9; 4]);
    assert_eq!(extra_ca_certificates(text.as_bytes()), Err(CaBundleError::NoCertificates));
    assert_eq!(extra_ca_certificates(b""), Err(CaBundleError::NoCertificates));
}

#[test]
fn extra_ca_certificates_refuses_malformed_bundle() {
    let bad = b"-----BEGIN CERTIFICATE-----\nnot base64 !@#\n-----END CERTIFICATE-----\n";
    match extra_ca_certificates(bad) {
        Err(CaBundleError::Malformed { source }) => {
            assert!(matches!(source, pem::PemError::InvalidData(_)), "unexpected error: {source:?}");
        }
        other => panic!("expected a malformed bundle, got {other:?}"),
    }
}

#[test]
fn merge_root_certs_appends_after_cluster_roots() {
    let merged = merge_root_certs(Some(vec![vec![1], vec![2]]), vec![vec![3], vec![4]]);
    assert_eq!(merged, vec![vec![1], vec![2], vec![3], vec![4]]);
}

#[test]
fn merge_root_certs_without_cluster_roots() {
    let merged = merge_root_certs(None, vec![vec![3]]);
    assert_eq!(merged, vec![vec![3]]);
    let merged = merge_root_certs(Some(Vec::new()), vec![vec![3]]);
    assert_eq!(merged, vec![vec![3]]);
}
