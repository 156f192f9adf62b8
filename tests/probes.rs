use machineid_rs::{
    cores_text, decimal, get_hwid, get_mac_address, mac_address_path, mac_interface_candidates,
    new_token, parse_diskutil_uuid, parse_ifconfig_mac, parse_ioreg_uuid,
    parse_wmic_disk_serial, reported_or, stored_token, Device, HWIDComponent, HWIDError, Output,
};
use std::cell::RefCell;

fn dev(name: &str, mountpoint: Option<&str>, uuid: Option<&str>, children: Option<Vec<Device>>) -> Device {
    Device {
        name: name.to_string(),
        mountpoint: mountpoint.map(|m| m.to_string()),
        children,
        uuid: uuid.map(|u| u.to_string()),
    }
}

#[test]
fn root_disk_first_match_wins() {
    let out = Output {
        blockdevices: vec![
            dev("sda1", Some("/"), Some("uuid-first"), None),
            dev("sdb1", Some("/"), Some("uuid-second"), None),
        ],
    };
    assert_eq!(out.get_root("").unwrap(), "uuid-first");
    assert_eq!(out.cid_path(), None);
}

#[test]
fn root_disk_found_among_children() {
    let out = Output {
        blockdevices: vec![
            dev("loop0", Some("/snap/core"), Some("loop-uuid"), None),
            dev(
                "nvme0n1",
                None,
                None,
                Some(vec![
                    dev("nvme0n1p1", Some("/boot/efi"), Some("efi-uuid"), None),
                    dev("nvme0n1p2", Some("/"), Some("root-uuid"), None),
                ]),
            ),
        ],
    };
    assert_eq!(out.get_root("").unwrap(), "root-uuid");
}

#[test]
fn root_disk_search_stops_at_the_first_root_device() {
    let out = Output {
        blockdevices: vec![
            dev("sda", Some("/"), None, None),
            dev("sdb", Some("/"), Some("U2"), None),
        ],
    };
    assert_eq!(out.get_root("").unwrap_err().kind(), "FieldNotFound");
}

#[test]
fn root_disk_prefers_a_32_character_mmc_cid() {
    let out = Output {
        blockdevices: vec![dev("mmcblk0p2", Some("/"), Some("part-uuid"), None)],
    };
    assert_eq!(out.cid_path(), Some("/sys/block/mmcblk0/device/cid".to_string()));
    let cid = "0123456789abcdef0123456789abcdef\n";
    assert_eq!(out.get_root(cid).unwrap(), "0123456789abcdef0123456789abcdef");
    assert_eq!(out.get_root("0123\n").unwrap(), "part-uuid");
    assert_eq!(out.get_root("").unwrap(), "part-uuid");
}

#[test]
fn root_disk_prefers_the_cid_of_a_root_mounted_mmc_partition() {
    let out = Output {
        blockdevices: vec![dev(
            "mmcblk0",
            None,
            None,
            Some(vec![
                dev("mmcblk0p1", Some("/boot"), Some("boot-uuid"), None),
                dev("mmcblk0p2", Some("/"), Some("U"), None),
            ]),
        )],
    };
    assert_eq!(out.cid_path(), Some("/sys/block/mmcblk0/device/cid".to_string()));
    let cid = "  0123456789abcdef0123456789abcdef ";
    assert_eq!(out.get_root(cid).unwrap(), "0123456789abcdef0123456789abcdef");
}

#[test]
fn root_disk_missing_is_field_not_found() {
    let out = Output {
        blockdevices: vec![dev("sda", None, Some("u"), Some(vec![dev("sda1", Some("/home"), Some("h"), None)]))],
    };
    assert_eq!(out.get_root("").unwrap_err().kind(), "FieldNotFound");
    assert_eq!(out.cid_path(), None);
    let empty = Output { blockdevices: vec![] };
    assert_eq!(empty.get_root("").unwrap_err().kind(), "FieldNotFound");
}

#[test]
fn ioreg_platform_uuid_is_read_and_unquoted() {
    let text = "+-o Root  <class IORegistryEntry>\n  {\n    \"IOPlatformSerialNumber\" = \"C02XYZ\"\n    \"IOPlatformUUID\" = \"8A3F1C2E-1111-2222-3333-444455556666\"\n  }\n";
    assert_eq!(parse_ioreg_uuid(text).unwrap(), "8A3F1C2E-1111-2222-3333-444455556666");
}

#[test]
fn ioreg_without_platform_uuid_is_field_not_found() {
    let text = "+-o Root\n    \"IOPlatformSerialNumber\" = \"C02XYZ\"\n";
    assert_eq!(parse_ioreg_uuid(text).unwrap_err().kind(), "FieldNotFound");
    assert_eq!(parse_ioreg_uuid("").unwrap_err().kind(), "FieldNotFound");
}

#[test]
fn ifconfig_ether_field_is_the_mac_address() {
    let text = "en0: flags=8863<UP,BROADCAST> mtu 1500\n\tether 3c:22:fb:01:02:03 \n";
    assert_eq!(parse_ifconfig_mac(text).unwrap(), "3c:22:fb:01:02:03");
    assert_eq!(parse_ifconfig_mac("en0: flags=0\n").unwrap_err().kind(), "FieldNotFound");
}

#[test]
fn diskutil_volume_uuid_is_trimmed() {
    let text = "   Device Identifier:        disk1s1\n   Volume UUID:              5B1C8A0E-AAAA-BBBB-CCCC-0123456789AB\n";
    assert_eq!(parse_diskutil_uuid(text).unwrap(), "5B1C8A0E-AAAA-BBBB-CCCC-0123456789AB");
    assert_eq!(parse_diskutil_uuid("   Device Identifier: disk1\n").unwrap_err().kind(), "FieldNotFound");
}

#[test]
fn wmic_serial_of_the_first_physical_drive() {
    let text = "DeviceID            SerialNumber\r\n\\\\.\\PHYSICALDRIVE1  OTHER\r\n\\\\.\\PHYSICALDRIVE0  S3Z9NX0K123456\r\n\r\n";
    assert_eq!(parse_wmic_disk_serial(text).unwrap(), "S3Z9NX0K123456");
}

#[test]
fn wmic_errors() {
    assert_eq!(
        parse_wmic_disk_serial("DeviceID  SerialNumber\r\n").unwrap_err().kind(),
        "FieldNotFound"
    );
    assert_eq!(
        parse_wmic_disk_serial("\\\\.\\PHYSICALDRIVE0\r\n").unwrap_err().kind(),
        "ParseFailure"
    );
    assert_eq!(
        parse_wmic_disk_serial("\\\\.\\PHYSICALDRIVE0  AB CD\r\n").unwrap_err().kind(),
        "ParseFailure"
    );
}

#[test]
fn mac_candidates_in_priority_order() {
    let names = mac_interface_candidates();
    assert_eq!(names.len(), 24);
    assert_eq!(names[0], "eno0");
    assert_eq!(names[1], "ens0");
    assert_eq!(names[2], "enp0s0");
    assert_eq!(names[11], "enp9s0");
    assert_eq!(names[12], "wlp0s0");
    assert_eq!(names[21], "wlp9s0");
    assert_eq!(names[22], "eth0");
    assert_eq!(names[23], "wlan0");
    assert_eq!(mac_address_path("eth0"), "/sys/class/net/eth0/address");
}

#[test]
fn mac_address_first_readable_candidate_wins() {
    let asked = RefCell::new(Vec::new());
    let r = get_mac_address(
        |name: &str| {
            asked.borrow_mut().push(name.to_string());
            if name == "enp3s0" || name == "eth0" {
                Ok(format!("mac-of-{name}"))
            } else {
                Err(HWIDError::new("FileNotFound", "no such interface"))
            }
        },
        || panic!("the default route is not needed"),
    );
    assert_eq!(r.unwrap(), "mac-of-enp3s0");
    assert_eq!(asked.borrow().len(), 6);
}

#[test]
fn mac_address_falls_back_to_the_default_route_interface() {
    let r = get_mac_address(
        |name: &str| {
            if name == "wlx001122" {
                Ok("00:11:22:33:44:55\n".to_string())
            } else {
                Err(HWIDError::new("FileNotFound", "no such interface"))
            }
        },
        || Ok("wlx001122\n".to_string()),
    );
    assert_eq!(r.unwrap(), "00:11:22:33:44:55\n");
    let failed = get_mac_address(
        |_name: &str| Err(HWIDError::new("FileNotFound", "no such interface")),
        || Err(HWIDError::new("CommandExecutionFailure", "ip failed")),
    );
    assert_eq!(failed.unwrap_err().kind(), "CommandExecutionFailure");
}

#[test]
fn system_id_first_existing_file_trimmed() {
    let r = get_hwid(|path: &str| {
        if path == "/etc/machine-id" {
            Some(Ok("b08dfa6083e7567a1921a715000001fb\n".to_string()))
        } else {
            None
        }
    });
    assert_eq!(r.unwrap(), "b08dfa6083e7567a1921a715000001fb");
    let first = get_hwid(|path: &str| {
        if path == "/var/lib/dbus/machine-id" {
            Some(Ok(" dbus-id ".to_string()))
        } else {
            Some(Ok("etc-id".to_string()))
        }
    });
    assert_eq!(first.unwrap(), "dbus-id");
}

#[test]
fn system_id_errors() {
    assert_eq!(get_hwid(|_p: &str| None).unwrap_err().kind(), "FileNotFound");
    let denied = get_hwid(|_p: &str| Some(Err(HWIDError::new("PermissionDenied", "denied"))));
    assert_eq!(denied.unwrap_err().kind(), "PermissionDenied");
}

#[test]
fn core_count_text_defaults_to_two() {
    assert_eq!(cores_text(None), "2");
    assert_eq!(cores_text(Some(12)), "12");
    assert_eq!(decimal(0), "0");
    assert_eq!(decimal(1_000_007), "1000007");
}

#[test]
fn reported_or_attributes_a_missing_value() {
    assert_eq!(reported_or(Some("Ubuntu".to_string()), "no OS").unwrap(), "Ubuntu");
    let e = reported_or(None, "Could not retrieve OS Name").unwrap_err();
    assert_eq!(e.kind(), "FieldNotFound");
    assert_eq!(e.message(), "Could not retrieve OS Name");
}

#[test]
fn system_info_components_resolve_without_platform_probe() {
    assert!(HWIDComponent::SystemID.resolve_system_info().is_none());
    assert!(HWIDComponent::FileToken("t").resolve_system_info().is_none());
    let cores = HWIDComponent::CPUCores.resolve_system_info().unwrap().unwrap();
    assert!(!cores.is_empty() && cores.chars().all(|c| c.is_ascii_digit()));
    assert!(HWIDComponent::Username.resolve_system_info().unwrap().is_ok());
}

#[test]
fn token_store_keeps_existing_contents() {
    assert!(stored_token("").is_none());
    assert_eq!(stored_token("  tok-1 \n").unwrap(), "tok-1");
    let fresh = new_token();
    assert_eq!(fresh.len(), 36);
    assert_eq!(fresh.matches('-').count(), 4);
    assert!(fresh
        .chars()
        .all(|c| c == '-' || c.is_ascii_digit() || ('a'..='f').contains(&c)));
    assert_eq!(stored_token(&fresh).unwrap(), fresh);
    assert_ne!(new_token(), fresh);
}
