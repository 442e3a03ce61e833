use ciborium::value::Value;
use keymint_provisioning::certs::{render_cert_array, render_certs};
use keymint_provisioning::uds_certs::{render_uds_certs, UdsCertsTarget};
use keymint_provisioning::error::ProvisioningError;

const CERT: &[u8] = &[
    0x30, 0x82, 0x03, 0x23, 0x30, 0x82, 0x02, 0x8c, 0xa0, 0x03, 0x02, 0x01, 0x02, 0x02, 0x04, 0x30,
    0x00, 0x00, 0x06, 0x30, 0x0d, 0x06, 0x09, 0x2a, 0x86, 0x48, 0x86, 0xf7, 0x0d, 0x01, 0x01, 0x05,
    0x05, 0x00, 0x30, 0x5f, 0x31, 0x0b, 0x30, 0x09, 0x06, 0x03, 0x55, 0x04, 0x06, 0x13, 0x02, 0x55,
    0x53, 0x31, 0x17, 0x30, 0x15, 0x06, 0x03, 0x55, 0x04, 0x0a, 0x13, 0x0e, 0x56, 0x65, 0x72, 0x69,
    0x53, 0x69, 0x67, 0x6e, 0x2c, 0x20, 0x49, 0x6e, 0x63, 0x2e, 0x31, 0x37, 0x30, 0x35, 0x06, 0x03,
    0x55, 0x04, 0x0b, 0x13, 0x2e, 0x43, 0x6c, 0x61, 0x73, 0x73, 0x20, 0x33, 0x20, 0x50, 0x75, 0x62,
    0x6c, 0x69, 0x63, 0x20, 0x50, 0x72, 0x69, 0x6d, 0x61, 0x72, 0x79, 0x20, 0x43, 0x65, 0x72, 0x74,
    0x69, 0x66, 0x69, 0x63, 0x61, 0x74, 0x69, 0x6f, 0x6e, 0x20, 0x41, 0x75, 0x74, 0x68, 0x6f, 0x72,
    0x69, 0x74, 0x79, 0x30, 0x1e, 0x17, 0x0d, 0x30, 0x34, 0x30, 0x35, 0x31, 0x33, 0x30, 0x30, 0x30,
    0x30, 0x30, 0x30, 0x5a, 0x17, 0x0d, 0x31, 0x35, 0x30, 0x35, 0x31, 0x32, 0x32, 0x33, 0x35, 0x39,
    0x35, 0x39, 0x5a, 0x30, 0x4c, 0x31, 0x0b, 0x30, 0x09, 0x06, 0x03, 0x55, 0x04, 0x06, 0x13, 0x02,
    0x5a, 0x41, 0x31, 0x25, 0x30, 0x23, 0x06, 0x03, 0x55, 0x04, 0x0a, 0x13, 0x1c, 0x54, 0x68, 0x61,
    0x77, 0x74, 0x65, 0x20, 0x43, 0x6f, 0x6e, 0x73, 0x75, 0x6c, 0x74, 0x69, 0x6e, 0x67, 0x20, 0x28,
    0x50, 0x74, 0x79, 0x29, 0x20, 0x4c, 0x74, 0x64, 0x2e, 0x31, 0x16, 0x30, 0x14, 0x06, 0x03, 0x55,
    0x04, 0x03, 0x13, 0x0d, 0x54, 0x68, 0x61, 0x77, 0x74, 0x65, 0x20, 0x53, 0x47, 0x43, 0x20, 0x43,
    0x41, 0x30, 0x81, 0x9f, 0x30, 0x0d, 0x06, 0x09, 0x2a, 0x86, 0x48, 0x86, 0xf7, 0x0d, 0x01, 0x01,
    0x01, 0x05, 0x00, 0x03, 0x81, 0x8d, 0x00, 0x30, 0x81, 0x89, 0x02, 0x81, 0x81, 0x00, 0xd4, 0xd3,
    0x67, 0xd0, 0x8d, 0x15, 0x7f, 0xae, 0xcd, 0x31, 0xfe, 0x7d, 0x1d, 0x91, 0xa1, 0x3f, 0x0b, 0x71,
    0x3c, 0xac, 0xcc, 0xc8, 0x64, 0xfb, 0x63, 0xfc, 0x32, 0x4b, 0x07, 0x94, 0xbd, 0x6f, 0x80, 0xba,
    0x2f, 0xe1, 0x04, 0x93, 0xc0, 0x33, 0xfc, 0x09, 0x33, 0x23, 0xe9, 0x0b, 0x74, 0x2b, 0x71, 0xc4,
    0x03, 0xc6, 0xd2, 0xcd, 0xe2, 0x2f, 0xf5, 0x09, 0x63, 0xcd, 0xff, 0x48, 0xa5, 0x00, 0xbf, 0xe0,
    0xe7, 0xf3, 0x88, 0xb7, 0x2d, 0x32, 0xde, 0x98, 0x36, 0xe6, 0x0a, 0xad, 0x00, 0x7b, 0xc4, 0x64,
    0x4a, 0x3b, 0x84, 0x75, 0x03, 0xf2, 0x70, 0x92, 0x7d, 0x0e, 0x62, 0xf5, 0x21, 0xab, 0x69, 0x36,
    0x84, 0x31, 0x75, 0x90, 0xf8, 0xbf, 0xc7, 0x6c, 0x88, 0x1b, 0x06, 0x95, 0x7c, 0xc9, 0xe5, 0xa8,
    0xde, 0x75, 0xa1, 0x2c, 0x7a, 0x68, 0xdf, 0xd5, 0xca, 0x1c, 0x87, 0x58, 0x60, 0x19, 0x02, 0x03,
    0x01, 0x00, 0x01, 0xa3, 0x81, 0xfe, 0x30, 0x81, 0xfb, 0x30, 0x12, 0x06, 0x03, 0x55, 0x1d, 0x13,
    0x01, 0x01, 0xff, 0x04, 0x08, 0x30, 0x06, 0x01, 0x01, 0xff, 0x02, 0x01, 0x00, 0x30, 0x0b, 0x06,
    0x03, 0x55, 0x1d, 0x0f, 0x04, 0x04, 0x03, 0x02, 0x01, 0x06, 0x30, 0x11, 0x06, 0x09, 0x60, 0x86,
    0x48, 0x01, 0x86, 0xf8, 0x42, 0x01, 0x01, 0x04, 0x04, 0x03, 0x02, 0x01, 0x06, 0x30, 0x28, 0x06,
    0x03, 0x55, 0x1d, 0x11, 0x04, 0x21, 0x30, 0x1f, 0xa4, 0x1d, 0x30, 0x1b, 0x31, 0x19, 0x30, 0x17,
    0x06, 0x03, 0x55, 0x04, 0x03, 0x13, 0x10, 0x50, 0x72, 0x69, 0x76, 0x61, 0x74, 0x65, 0x4c, 0x61,
    0x62, 0x65, 0x6c, 0x33, 0x2d, 0x31, 0x35, 0x30, 0x31, 0x06, 0x03, 0x55, 0x1d, 0x1f, 0x04, 0x2a,
    0x30, 0x28, 0x30, 0x26, 0xa0, 0x24, 0xa0, 0x22, 0x86, 0x20, 0x68, 0x74, 0x74, 0x70, 0x3a, 0x2f,
    0x2f, 0x63, 0x72, 0x6c, 0x2e, 0x76, 0x65, 0x72, 0x69, 0x73, 0x69, 0x67, 0x6e, 0x2e, 0x63, 0x6f,
    0x6d, 0x2f, 0x70, 0x63, 0x61, 0x33, 0x2e, 0x63, 0x72, 0x6c, 0x30, 0x32, 0x06, 0x08, 0x2b, 0x06,
    0x01, 0x05, 0x05, 0x07, 0x01, 0x01, 0x04, 0x26, 0x30, 0x24, 0x30, 0x22, 0x06, 0x08, 0x2b, 0x06,
    0x01, 0x05, 0x05, 0x07, 0x30, 0x01, 0x86, 0x16, 0x68, 0x74, 0x74, 0x70, 0x3a, 0x2f, 0x2f, 0x6f,
    0x63, 0x73, 0x70, 0x2e, 0x74, 0x68, 0x61, 0x77, 0x74, 0x65, 0x2e, 0x63, 0x6f, 0x6d, 0x30, 0x34,
    0x06, 0x03, 0x55, 0x1d, 0x25, 0x04, 0x2d, 0x30, 0x2b, 0x06, 0x08, 0x2b, 0x06, 0x01, 0x05, 0x05,
    0x07, 0x03, 0x01, 0x06, 0x08, 0x2b, 0x06, 0x01, 0x05, 0x05, 0x07, 0x03, 0x02, 0x06, 0x09, 0x60,
    0x86, 0x48, 0x01, 0x86, 0xf8, 0x42, 0x04, 0x01, 0x06, 0x0a, 0x60, 0x86, 0x48, 0x01, 0x86, 0xf8,
    0x45, 0x01, 0x08, 0x01, 0x30, 0x0d, 0x06, 0x09, 0x2a, 0x86, 0x48, 0x86, 0xf7, 0x0d, 0x01, 0x01,
    0x05, 0x05, 0x00, 0x03, 0x81, 0x81, 0x00, 0x06, 0xa8, 0x0b, 0x8f, 0x09, 0x35, 0x17, 0xf5, 0x29,
    0x16, 0xc1, 0xb1, 0x65, 0xa4, 0x46, 0x1c, 0xa2, 0xc9, 0x56, 0xc9, 0x22, 0x2a, 0x95, 0x2a, 0x86,
    0x5d, 0x63, 0xea, 0x36, 0x42, 0xd9, 0x9f, 0x84, 0x25, 0x0e, 0xff, 0x94, 0x56, 0xed, 0x95, 0xa0,
    0xf0, 0x39, 0x54, 0xaa, 0xd5, 0xa2, 0x2e, 0x9c, 0x68, 0x0d, 0xba, 0xb6, 0x06, 0x38, 0x50, 0xe3,
    0x96, 0x8b, 0x02, 0xd6, 0xcb, 0x9f, 0x0d, 0xcd, 0xbb, 0x63, 0xc2, 0xfd, 0x54, 0x20, 0x03, 0x1e,
    0xba, 0xd1, 0x5b, 0x70, 0xff, 0x58, 0xe7, 0x6f, 0x69, 0xf2, 0x10, 0x8f, 0x14, 0xa1, 0x3d, 0xb9,
    0xb2, 0xcc, 0xcb, 0x6c, 0xd9, 0x4e, 0xa7, 0xef, 0xaa, 0x56, 0x43, 0xe2, 0xe2, 0x22, 0xa3, 0x80,
    0x68, 0xb0, 0x83, 0xaa, 0x62, 0x34, 0x11, 0x93, 0xe0, 0x10, 0x1f, 0x81, 0x21, 0x99, 0x22, 0x2e,
    0x1b, 0xa2, 0xca, 0x33, 0xf5, 0x09, 0x61,];

#[test]
fn empty_chain_renders_nothing() {
    let out = render_certs(&[]);
    assert!(out.lines.is_empty());
    assert!(out.error.is_none());
}

#[test]
fn one_certificate_renders_one_line() {
    let out = render_certs(CERT);
    assert!(out.error.is_none(), "{:?}", out.error);
    assert_eq!(out.lines.len(), 1);
    assert!(out.lines[0].starts_with("CertificateInner"));
    assert!(out.lines[0].contains("tbs_certificate"));
}

#[test]
fn chain_of_two_renders_two_lines() {
    let mut chain = CERT.to_vec();
    chain.extend_from_slice(CERT);
    let out = render_certs(&chain);
    assert!(out.error.is_none(), "{:?}", out.error);
    assert_eq!(out.lines.len(), 2);
    assert_eq!(out.lines[0], out.lines[1]);
}

#[test]
fn truncated_element_is_a_der_error_after_earlier_certificates() {
    let mut chain = CERT.to_vec();
    chain.extend_from_slice(&CERT[..10]);
    let out = render_certs(&chain);
    assert_eq!(out.lines.len(), 1);
    assert!(matches!(out.error, Some(ProvisioningError::Der(_))));
}

#[test]
fn element_that_is_not_a_certificate_is_a_certificate_error() {
    // INTEGER 5, then a certificate that is never reached.
    let mut chain = vec![0x02, 0x01, 0x05];
    chain.extend_from_slice(CERT);
    let out = render_certs(&chain);
    assert!(out.lines.is_empty());
    match out.error {
        Some(e @ ProvisioningError::Certificate(_)) => {
            assert!(e.message().starts_with("Parse certificate from DER: "));
        }
        other => panic!("unexpected error {:?}", other),
    }
}

#[test]
fn lone_tag_byte_is_a_der_error() {
    let out = render_certs(&[0x30]);
    assert!(out.lines.is_empty());
    assert!(matches!(out.error, Some(ProvisioningError::Der(_))));
}

fn serialize(value: &Value) -> Vec<u8> {
    let mut data = Vec::new();
    ciborium::ser::into_writer(value, &mut data).unwrap();
    data
}

#[test]
fn stored_certificate_array_is_displayed() {
    let certs = serialize(&Value::Array(vec![Value::Bytes(CERT.to_vec())]));
    let store = serialize(&Value::Map(vec![(Value::Text("s1".to_string()), Value::Bytes(certs))]));
    let out = render_uds_certs(UdsCertsTarget::Host, &store);
    assert!(out.error.is_none(), "{:?}", out.error);
    assert_eq!(out.lines.len(), 2);
    assert_eq!(out.lines[0], "SignerName: s1");
    assert_eq!(out.lines[1], render_certs(CERT).lines[0]);
}

#[test]
fn certificate_array_renders_each_element() {
    let certs = serialize(&Value::Array(vec![Value::Bytes(CERT.to_vec()), Value::Bytes(CERT.to_vec())]));
    let out = render_cert_array(&certs);
    assert!(out.error.is_none(), "{:?}", out.error);
    assert_eq!(out.lines.len(), 2);
}

#[test]
fn der_error_positions_count_from_chain_start() {
    let mut chain = CERT.to_vec();
    chain.extend_from_slice(&CERT[..10]);
    let out = render_certs(&chain);
    match out.error {
        Some(ProvisioningError::Der(m)) => assert!(m.contains(&format!("{}", CERT.len())), "{}", m),
        other => panic!("unexpected error {:?}", other),
    }
}
