use jx_keymapper::fingerprint::{
    decode_command_output, device_fingerprint, fingerprint_with_macs, guid_from_registry,
    last_word_of, mac_addresses, machine_guid, trim_chars,
};

const REG: &str = "\r\nHKEY_LOCAL_MACHINE\\SOFTWARE\\Microsoft\\Cryptography\r\n    MachineGuid    REG_SZ    4b1f2c3d-aaaa-bbbb-cccc-0123456789ab\r\n\r\n";

fn utf16_with_bom(text: &str) -> Vec<u8> {
    let mut bytes = vec![0xff, 0xfe];
    for unit in text.encode_utf16() {
        bytes.extend_from_slice(&unit.to_le_bytes());
    }
    bytes
}

#[test]
fn decodes_utf8_and_utf16_output() {
    assert_eq!(decode_command_output(b"plain text"), "plain text");
    assert_eq!(decode_command_output(&utf16_with_bom("机器 Guid")), "机器 Guid");
    let mut odd = utf16_with_bom("ab");
    odd.push(0x41);
    assert_eq!(decode_command_output(&odd), "ab");
    assert_eq!(decode_command_output(&[0x66, 0xff, 0x67]), "f\u{fffd}g");
}

#[test]
fn finds_machine_guid() {
    assert_eq!(machine_guid(REG).as_deref(), Some("4b1f2c3d-aaaa-bbbb-cccc-0123456789ab"));
    assert_eq!(
        guid_from_registry(&utf16_with_bom(REG)).unwrap(),
        "4b1f2c3d-aaaa-bbbb-cccc-0123456789ab"
    );
}

#[test]
fn short_or_missing_guid_is_an_error() {
    assert_eq!(machine_guid("MachineGuid REG_SZ abc\n"), None);
    assert_eq!(machine_guid("nothing here"), None);
    assert_eq!(machine_guid("MachineGuid\n"), Some("MachineGuid".to_string()).filter(|s| s.len() >= 16));
    assert_eq!(guid_from_registry(b"x").unwrap_err(), "本机机器码格式错误");
}

#[test]
fn first_matching_line_decides() {
    let text = "MachineGuid short\nMachineGuid 0123456789abcdef0123\n";
    assert_eq!(machine_guid(text), None);
}

#[test]
fn trims_and_splits_words() {
    let t: Vec<char> = "  a b\u{3000}\t".chars().collect();
    assert_eq!(trim_chars(&t).into_iter().collect::<String>(), "a b");
    let line: Vec<char> = "x  yy zzz  ".chars().collect();
    assert_eq!(last_word_of(&line).unwrap().into_iter().collect::<String>(), "zzz");
    let blank: Vec<char> = "   ".chars().collect();
    assert!(last_word_of(&blank).is_none());
}

#[test]
fn keeps_only_mac_lines() {
    let text = " 00:11:22:33:44:55 \r\nAA:BB:CC:DD:EE:FF\r\n00-11-22-33-44-55\r\n00:11:22:33:44:5\r\n";
    assert_eq!(
        mac_addresses(text),
        vec!["00:11:22:33:44:55".to_string(), "AA:BB:CC:DD:EE:FF".to_string()]
    );
    assert!(mac_addresses("").is_empty());
}

#[test]
fn fingerprint_is_blake3_of_lowercased_parts() {
    let macs = vec!["AA:BB:CC:DD:EE:FF".to_string(), "00:11:22:33:44:55".to_string()];
    let id = device_fingerprint("ABCDEF01-2345", &macs);
    let expected = blake3::hash("abcdef01-2345:aa:bb:cc:dd:ee:ff,00:11:22:33:44:55".as_bytes())
        .to_hex()
        .to_string();
    assert_eq!(id, expected);
    assert_eq!(id.len(), 64);
    assert_ne!(id, "abcdef01-2345:aa:bb:cc:dd:ee:ff,00:11:22:33:44:55");
}

#[test]
fn fingerprint_needs_a_mac_address() {
    assert_eq!(fingerprint_with_macs("guid", b"no macs\r\n").unwrap_err(), "没有可用的网卡识别码");
    let id = fingerprint_with_macs("Guid", b"00:11:22:33:44:55\r\n").unwrap();
    let expected = blake3::hash(b"guid:00:11:22:33:44:55").to_hex().to_string();
    assert_eq!(id, expected);
}

#[test]
fn fingerprint_with_macs_is_64_lower_hex_digits() {
    let id = fingerprint_with_macs("4B1F2C3D-AAAA", b"AA:BB:CC:DD:EE:FF\r\n").unwrap();
    assert_eq!(id.len(), 64);
    assert!(id.bytes().all(|b| b.is_ascii_digit() || (b'a'..=b'f').contains(&b)));
    assert_eq!(&id[56..], &id[id.len() - 8..]);
}

#[test]
fn padding_and_other_lines_do_not_change_the_fingerprint() {
    let plain = fingerprint_with_macs("guid", b"00:11:22:33:44:55\r\nAA:BB:CC:DD:EE:FF\r\n").unwrap();
    let noisy = fingerprint_with_macs(
        "guid",
        b"Physical Address\r\n  00:11:22:33:44:55  \r\nnot-a-mac\r\n\tAA:BB:CC:DD:EE:FF\r\n00-11-22-33-44-55\r\n",
    )
    .unwrap();
    assert_eq!(plain, noisy);
}

#[test]
fn letter_case_does_not_change_the_device_id() {
    let a = fingerprint_with_macs("4b1f2c3d-aaaa", b"aa:bb:cc:dd:ee:ff\r\n").unwrap();
    let b = fingerprint_with_macs("4B1F2C3D-AaAa", b"AA:bb:CC:dd:EE:ff\r\n").unwrap();
    assert_eq!(a, b);
}

#[test]
fn registry_guid_is_the_same_in_utf8_and_utf16() {
    let from_utf8 = guid_from_registry(REG.as_bytes()).unwrap();
    let from_utf16 = guid_from_registry(&utf16_with_bom(REG)).unwrap();
    assert_eq!(from_utf8, from_utf16);
    assert_eq!(from_utf8, "4b1f2c3d-aaaa-bbbb-cccc-0123456789ab");
}

#[test]
fn fingerprint_outcome_survives_a_run_of_listing_changes() {
    let guid_utf8 = guid_from_registry(REG.as_bytes()).unwrap();
    let upper_token = REG.replace("4b1f2c3d-aaaa-bbbb-cccc-0123456789ab", "4B1F2C3D-AAAA-BBBB-CCCC-0123456789AB");
    let guid_utf16 = guid_from_registry(&utf16_with_bom(&upper_token)).unwrap();
    let base = fingerprint_with_macs(&guid_utf8, b"00:11:22:33:44:aa\r\n").unwrap();
    let changed = fingerprint_with_macs(
        &guid_utf16,
        b"Adapters\r\n   00:11:22:33:44:AA\t\r\n00-11-22-33-44-55\r\n",
    )
    .unwrap();
    assert_eq!(base, changed);
}
