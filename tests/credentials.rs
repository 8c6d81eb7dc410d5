use gl_runes::credentials::{Credentials, Device, UnifiedCredentials};
use gl_runes::error::Error;

fn device() -> Credentials {
    Credentials::from_parts(b"CERT", b"KEY", "rune-é", &[2, 0, 1])
}

#[test]
fn ensure_device_on_nobody_fails() {
    let c = Credentials::new();
    assert!(matches!(c.ensure_device(), Err(Error::IsIdentity(_))));
    assert!(c.ensure_nobody().is_ok());
    let c = Credentials::nobody_with(b"c", b"k");
    assert!(matches!(c.ensure_device(), Err(Error::IsIdentity(_))));
}

#[test]
fn ensure_nobody_on_device_fails() {
    let c = device();
    assert!(matches!(c.ensure_nobody(), Err(Error::IsIdentity(_))));
    assert!(c.ensure_device().is_ok());
}

#[test]
fn to_bytes_on_nobody_fails() {
    assert!(matches!(Credentials::new().to_bytes(), Err(Error::IsIdentity(_))));
}

#[test]
fn device_bytes_round_trip() {
    let c = device().with_ca(b"ANCHOR");
    let bytes = c.to_bytes().unwrap();
    assert_eq!(&bytes[..8], &[0, 0, 0, 4, b'C', b'E', b'R', b'T']);
    let back = Credentials::from_bytes(&bytes).unwrap();
    assert_eq!(back.node_id().unwrap(), vec![2, 0, 1]);
    assert_eq!(back.rune().unwrap(), "rune-é");
    assert_eq!(back.to_bytes().unwrap(), bytes);
    match back.inner {
        UnifiedCredentials::Device(d) => assert_eq!(d.ca, b"ANCHOR".to_vec()),
        UnifiedCredentials::Nobody(_) => panic!("expected a device"),
    }
}

#[test]
fn malformed_bytes_fail_to_decode() {
    assert_eq!(Credentials::from_bytes(&[0, 0, 0]).unwrap_err(), Error::Decode);
    assert_eq!(Credentials::from_bytes(&[0, 0, 0, 9, 1]).unwrap_err(), Error::Decode);
    let mut bytes = device().to_bytes().unwrap();
    bytes.push(0xff);
    assert_eq!(Credentials::from_bytes(&bytes).unwrap_err(), Error::Decode);
}

#[test]
fn upgrade_on_nobody_fails_before_any_round_trip() {
    let c = Credentials::new();
    assert!(matches!(c.upgrade_request(), Err(Error::IsIdentity(_))));
    let confirmed = Device {
        cert: vec![1],
        key: vec![2],
        ca: vec![],
        node_id: vec![3],
        rune: String::from("r"),
    };
    assert!(matches!(c.upgrade(Ok(confirmed)), Err(Error::IsIdentity(_))));
}

#[test]
fn upgrade_on_device() {
    let c = device();
    let pending = c.upgrade_request().unwrap();
    assert_eq!(pending.rune, "rune-é");
    let confirmed = Device {
        cert: vec![9],
        key: vec![8],
        ca: vec![],
        node_id: vec![7],
        rune: String::from("fresh"),
    };
    let up = c.upgrade(Ok(confirmed)).unwrap();
    assert_eq!(up.rune().unwrap(), "fresh");
    assert_eq!(up.node_id().unwrap(), vec![7]);
    assert_eq!(c.upgrade(Err(String::from("scheduler down"))).unwrap_err(), Error::Protocol(String::from("scheduler down")));
}

#[test]
fn with_ca_keeps_kind() {
    let n = Credentials::new().with_ca(b"ca");
    assert!(n.ensure_nobody().is_ok());
    let d = device().with_ca(b"ca");
    assert!(d.ensure_device().is_ok());
    assert_eq!(d.rune().unwrap(), "rune-é");
}

#[test]
fn node_id_and_rune_on_nobody_fail() {
    let c = Credentials::new();
    assert!(matches!(c.node_id(), Err(Error::IsIdentity(_))));
    assert!(matches!(c.rune(), Err(Error::IsIdentity(_))));
}

#[test]
fn identity_errors_carry_their_messages() {
    let n = Credentials::new();
    let d = device();
    assert_eq!(
        n.ensure_device().unwrap_err(),
        Error::IsIdentity(String::from("credentials are not of type device"))
    );
    assert_eq!(
        d.ensure_nobody().unwrap_err(),
        Error::IsIdentity(String::from("credentials are not of type nobody"))
    );
    assert_eq!(
        n.to_bytes().unwrap_err(),
        Error::IsIdentity(String::from("can not convert nobody into bytes"))
    );
    assert_eq!(
        n.upgrade_request().unwrap_err(),
        Error::IsIdentity(String::from("can not upgrade nobody credentials"))
    );
}
