use keymint_provisioning::attestation::get_attestation_keys;
use keymint_provisioning::attestation_ids::{
    collect_attestation_ids, render_attestation_ids, AttestationIds, AttestationIdsArgs,
};
use keymint_provisioning::sched_policy::SchedPolicy;
use std::cell::RefCell;

fn no_args() -> AttestationIdsArgs {
    AttestationIdsArgs {
        brand: None,
        device: None,
        product: None,
        serial: None,
        manufacturer: None,
        model: None,
        meid: None,
        imei: None,
        imei2: None,
    }
}

#[test]
fn given_ids_are_used_and_no_property_is_read() {
    let args = AttestationIdsArgs {
        brand: Some("b".to_string()),
        device: Some("d".to_string()),
        product: Some("p".to_string()),
        serial: Some("s".to_string()),
        manufacturer: Some("m".to_string()),
        model: Some("mo".to_string()),
        meid: Some("me".to_string()),
        imei: Some("i1".to_string()),
        imei2: Some("i2".to_string()),
    };
    let ids = collect_attestation_ids(&args, |name: &'static str| -> Result<Vec<u8>, String> {
        panic!("property {name} read although every ID was given")
    })
    .unwrap();
    assert_eq!(ids.brand, b"b");
    assert_eq!(ids.device, b"d");
    assert_eq!(ids.product, b"p");
    assert_eq!(ids.serial, b"s");
    assert_eq!(ids.manufacturer, b"m");
    assert_eq!(ids.model, b"mo");
    assert_eq!(ids.meid, b"me");
    assert_eq!(ids.imei, b"i1");
    assert_eq!(ids.imei2, b"i2");
}

#[test]
fn missing_ids_come_from_properties_in_order() {
    let mut args = no_args();
    args.device = Some("given".to_string());
    let read = RefCell::new(Vec::new());
    let ids = collect_attestation_ids(&args, |name: &'static str| -> Result<Vec<u8>, String> {
        read.borrow_mut().push(name);
        Ok(format!("<{name}>").into_bytes())
    })
    .unwrap();
    assert_eq!(
        *read.borrow(),
        vec!["ro.product.brand", "ro.product.name", "ro.serialno", "ro.product.manufacturer", "ro.product.model"]
    );
    assert_eq!(ids.brand, b"<ro.product.brand>");
    assert_eq!(ids.device, b"given");
    assert_eq!(ids.product, b"<ro.product.name>");
    assert_eq!(ids.serial, b"<ro.serialno>");
    assert_eq!(ids.manufacturer, b"<ro.product.manufacturer>");
    assert_eq!(ids.model, b"<ro.product.model>");
    assert!(ids.imei.is_empty());
    assert!(ids.imei2.is_empty());
    assert!(ids.meid.is_empty());
}

#[test]
fn first_failing_property_stops_collection() {
    let read = RefCell::new(Vec::new());
    let res = collect_attestation_ids(&no_args(), |name: &'static str| -> Result<Vec<u8>, String> {
        read.borrow_mut().push(name);
        if name == "ro.product.name" { Err("no product".to_string()) } else { Ok(Vec::new()) }
    });
    assert_eq!(res.unwrap_err(), "no product");
    assert_eq!(*read.borrow(), vec!["ro.product.brand", "ro.product.device", "ro.product.name"]);
}

#[test]
fn non_ascii_ids_are_utf8_bytes() {
    let mut args = no_args();
    args.brand = Some("é".to_string());
    let ids = collect_attestation_ids(&args, |_: &'static str| -> Result<Vec<u8>, String> { Ok(vec![]) }).unwrap();
    assert_eq!(ids.brand, vec![0xc3, 0xa9]);
}

#[test]
fn attestation_keys_are_one_empty_rsa_key() {
    let keys = get_attestation_keys().unwrap();
    assert_eq!(keys.len(), 1);
    assert_eq!(keys[0].algorithm, "rsa");
    assert!(keys[0].key.is_empty());
    assert!(keys[0].certs.is_empty());
}

#[test]
fn sched_policy_raw_values() {
    let all = [
        (SchedPolicy::Default, -1),
        (SchedPolicy::Background, 0),
        (SchedPolicy::Foreground, 1),
        (SchedPolicy::System, 2),
        (SchedPolicy::AudioApp, 3),
        (SchedPolicy::AudioSys, 4),
        (SchedPolicy::TopApp, 5),
        (SchedPolicy::RTApp, 6),
        (SchedPolicy::Restricted, 7),
        (SchedPolicy::ForegroundWindow, 8),
    ];
    for (policy, raw) in all {
        assert_eq!(policy.as_raw(), raw);
    }
    assert_eq!(SchedPolicy::SystemDefault, SchedPolicy::Foreground);
    assert_eq!(SchedPolicy::SystemDefault.as_raw(), 1);
}

#[test]
fn attestation_ids_render_as_debug_byte_lists() {
    let ids = AttestationIds {
        brand: vec![1, 2, 3],
        device: vec![],
        product: vec![255, 10, 0],
        serial: vec![99],
        imei: vec![100],
        imei2: vec![9, 19],
        meid: vec![200, 201],
        manufacturer: b"ab".to_vec(),
        model: vec![7],
    };
    let lines = render_attestation_ids(&ids);
    assert_eq!(
        lines,
        vec![
            "AttestationIds {".to_string(),
            format!("  brand: {:?}", ids.brand),
            format!("  device: {:?}", ids.device),
            format!("  product: {:?}", ids.product),
            format!("  serial: {:?}", ids.serial),
            format!("  imei: {:?}", ids.imei),
            format!("  imei2: {:?}", ids.imei2),
            format!("  meid:  {:?}", ids.meid),
            format!("  manufacturer: {:?}", ids.manufacturer),
            format!("  model: {:?}", ids.model),
            "}".to_string(),
        ]
    );
    assert_eq!(lines[3], "  product: [255, 10, 0]");
    assert_eq!(lines[2], "  device: []");
}
