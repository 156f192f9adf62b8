use machineid_rs::{canonicalize, Encryption, HWIDComponent, HWIDError, IdBuilder};
use std::cell::Cell;

use hmac::{Hmac, Mac};

fn hmac_sha256_hex(key: &str, msg: &str) -> String {
    let mut mac = Hmac::<sha2::Sha256>::new_from_slice(key.as_bytes()).unwrap();
    mac.update(msg.as_bytes());
    hex::encode(mac.finalize().into_bytes())
}

fn fixed_probe(c: &HWIDComponent) -> Result<String, HWIDError> {
    match c {
        HWIDComponent::SystemID => Ok("4c4c4544004b".to_string()),
        HWIDComponent::CPUCores => Ok("8".to_string()),
        HWIDComponent::OSName => Ok("Linux 6.1 Debian".to_string()),
        HWIDComponent::Username => Ok("alice".to_string()),
        _ => Err(HWIDError::new("FieldNotFound", "not available here")),
    }
}

#[test]
fn add_component_keeps_insertion_order() {
    let mut builder = IdBuilder::new(Encryption::MD5);
    builder
        .add_component(HWIDComponent::CPUCores)
        .add_component(HWIDComponent::SystemID);
    assert_eq!(
        builder.parts(),
        &vec![HWIDComponent::CPUCores, HWIDComponent::SystemID]
    );
}

#[test]
fn add_component_twice_is_a_no_op() {
    let mut builder = IdBuilder::new(Encryption::MD5);
    builder
        .add_component(HWIDComponent::SystemID)
        .add_component(HWIDComponent::CPUCores)
        .add_component(HWIDComponent::SystemID);
    assert_eq!(builder.parts().len(), 2);
    assert_eq!(builder.parts()[0], HWIDComponent::SystemID);
}

#[test]
fn file_tokens_are_distinct_by_path() {
    let mut builder = IdBuilder::new(Encryption::MD5);
    builder
        .add_component(HWIDComponent::FileToken("a.txt"))
        .add_component(HWIDComponent::FileToken("b.txt"))
        .add_component(HWIDComponent::FileToken("a.txt"));
    assert_eq!(
        builder.parts(),
        &vec![HWIDComponent::FileToken("a.txt"), HWIDComponent::FileToken("b.txt")]
    );
}

#[test]
fn add_all_adds_every_hardware_component_in_order() {
    let mut builder = IdBuilder::new(Encryption::MD5);
    builder.add_component(HWIDComponent::CPUCores);
    builder.add_all();
    assert_eq!(
        builder.parts(),
        &vec![
            HWIDComponent::CPUCores,
            HWIDComponent::SystemID,
            HWIDComponent::OSName,
            HWIDComponent::CPUID,
            HWIDComponent::DriveSerial,
            HWIDComponent::MacAddress,
            HWIDComponent::Username,
            HWIDComponent::MachineName,
        ]
    );
}

#[test]
fn build_without_components_fails_before_any_probe() {
    let calls = Cell::new(0);
    let mut builder = IdBuilder::new(Encryption::SHA256);
    let r = builder.build("mykey", |_c: &HWIDComponent| {
        calls.set(calls.get() + 1);
        Ok("x".to_string())
    });
    assert_eq!(r.unwrap_err().kind(), "EmptyComponentSet");
    assert_eq!(calls.get(), 0);
}

#[test]
fn end_to_end_system_id_and_cores_sha256() {
    let mut builder = IdBuilder::new(Encryption::SHA256);
    builder
        .add_component(HWIDComponent::SystemID)
        .add_component(HWIDComponent::CPUCores);
    let id = builder.build("mykey", fixed_probe).unwrap();
    assert_eq!(id, hmac_sha256_hex("mykey", "4c4c4544004b8"));
}

#[test]
fn build_is_repeatable() {
    let mut builder = IdBuilder::new(Encryption::SHA1);
    builder
        .add_component(HWIDComponent::OSName)
        .add_component(HWIDComponent::Username);
    let first = builder.build("k", fixed_probe).unwrap();
    let second = builder.build("k", fixed_probe).unwrap();
    assert_eq!(first, second);
    assert_eq!(first.len(), 40);
}

#[test]
fn component_order_changes_the_identifier() {
    let mut ab = IdBuilder::new(Encryption::MD5);
    ab.add_component(HWIDComponent::SystemID)
        .add_component(HWIDComponent::Username);
    let mut ba = IdBuilder::new(Encryption::MD5);
    ba.add_component(HWIDComponent::Username)
        .add_component(HWIDComponent::SystemID);
    let x = ab.build("mykey", fixed_probe).unwrap();
    let y = ba.build("mykey", fixed_probe).unwrap();
    assert_ne!(x, y);
    let mut twice = IdBuilder::new(Encryption::MD5);
    twice
        .add_component(HWIDComponent::SystemID)
        .add_component(HWIDComponent::Username)
        .add_component(HWIDComponent::SystemID);
    assert_eq!(twice.build("mykey", fixed_probe).unwrap(), x);
}

#[test]
fn build_stops_at_the_first_failing_probe() {
    let calls = Cell::new(0);
    let mut builder = IdBuilder::new(Encryption::SHA256);
    builder
        .add_component(HWIDComponent::SystemID)
        .add_component(HWIDComponent::DriveSerial)
        .add_component(HWIDComponent::CPUCores);
    let r = builder.build("mykey", |c: &HWIDComponent| {
        calls.set(calls.get() + 1);
        match c {
            HWIDComponent::DriveSerial => Err(HWIDError::new("FieldNotFound", "no root disk")),
            _ => Ok("v".to_string()),
        }
    });
    let e = r.unwrap_err();
    assert_eq!(e.kind(), "FieldNotFound");
    assert_eq!(e.message(), "no root disk");
    assert_eq!(calls.get(), 2);
}

#[test]
fn canonicalize_concatenates_without_separator() {
    let r = canonicalize(vec![Ok("ab".to_string()), Ok("".to_string()), Ok("cd".to_string())]);
    assert_eq!(r.unwrap(), "abcd");
    assert_eq!(canonicalize(vec![]).unwrap(), "");
}

#[test]
fn canonicalize_returns_the_first_failure() {
    let r = canonicalize(vec![
        Ok("ab".to_string()),
        Err(HWIDError::new("ParseFailure", "first")),
        Err(HWIDError::new("FieldNotFound", "second")),
    ]);
    let e = r.unwrap_err();
    assert_eq!(e.kind(), "ParseFailure");
    assert_eq!(e.message(), "first");
}

#[test]
fn generate_hash_matches_rfc_2202_vectors() {
    let text = "what do ya want for nothing?";
    assert_eq!(
        Encryption::MD5.generate_hash("Jefe", text).unwrap(),
        "750c783e6ab0b503eaa86e310a5db738"
    );
    assert_eq!(
        Encryption::SHA1.generate_hash("Jefe", text).unwrap(),
        "effcdf6ae5eb2fa2d27416d5f184df9c259a7c79"
    );
    assert_eq!(
        Encryption::SHA256.generate_hash("Jefe", text).unwrap(),
        "5bdcc146bf60754e6a042426089575c75a003f089d2739839dec58b964ec3843"
    );
}

#[test]
fn generate_hash_is_deterministic_and_accepts_an_empty_key() {
    let a = Encryption::SHA256.generate_hash("", "abc").unwrap();
    let b = Encryption::SHA256.generate_hash("", "abc").unwrap();
    assert_eq!(a, b);
    assert_eq!(a, hmac_sha256_hex("", "abc"));
    assert_eq!(Encryption::MD5.generate_hash("k", "").unwrap().len(), 32);
    assert_eq!(Encryption::SHA1.generate_hash("k", "").unwrap().len(), 40);
    assert_eq!(a.len(), 64);
}

#[test]
fn error_describe_names_kind_and_message() {
    let e = HWIDError::new("FileNotFound", "no machine-id");
    assert_eq!(e.describe(), "FileNotFound: no machine-id");
}
