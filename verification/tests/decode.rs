use hdd::attr::{parse_smart_values, SmartAttribute};
use hdd::info::{parse_id, RPM};
use hdd::presets::{parse, Match};
use hdd::query::Ternary;

fn put_word(data: &mut [u8; 512], i: usize, w: u16) {
    data[2 * i] = (w & 0xff) as u8;
    data[2 * i + 1] = (w >> 8) as u8;
}

fn put_text(data: &mut [u8; 512], first: usize, words: usize, text: &str) {
    let mut bytes = text.as_bytes().to_vec();
    bytes.resize(2 * words, b' ');
    for k in 0..words {
        data[2 * (first + k) + 1] = bytes[2 * k];
        data[2 * (first + k)] = bytes[2 * k + 1];
    }
}

fn identification() -> [u8; 512] {
    let mut data = [0u8; 512];
    put_text(&mut data, 10, 10, "      Z2A0XXXX");
    put_text(&mut data, 23, 4, "KC45");
    put_text(&mut data, 27, 20, "ST500DM002-1BD142");
    put_word(&mut data, 60, 0xffff);
    put_word(&mut data, 61, 0x0fff);
    put_word(&mut data, 80, 0x01f0);
    put_word(&mut data, 82, 0x0400 | 0x0040 | 0x0020 | 0x0008 | 0x0002 | 0x0001);
    put_word(&mut data, 83, 0x0400 | 0x0200);
    put_word(&mut data, 84, 0x0020 | 0x0001);
    put_word(&mut data, 85, 0x0400 | 0x0040 | 0x0020 | 0x0001);
    put_word(&mut data, 86, 0);
    put_word(&mut data, 100, 0x6030);
    put_word(&mut data, 101, 0x3a38);
    put_word(&mut data, 102, 0);
    put_word(&mut data, 103, 0);
    put_word(&mut data, 106, 0x4000 | 0x2000 | 3);
    put_word(&mut data, 217, 7200);
    data
}

#[test]
fn identification_is_decoded() {
    let id = parse_id(&identification());
    assert!(!id.incomplete);
    assert_eq!(id.model, "ST500DM002-1BD142");
    assert_eq!(id.firmware, "KC45");
    assert_eq!(id.serial, "Z2A0XXXX");
    assert_eq!(id.rpm, RPM::RPM(7200));
    assert_eq!(id.capacity, 500107862016);
    assert_eq!(id.sector_size_log, 512);
    assert_eq!(id.sector_size_phy, 4096);
    assert_eq!(id.ata_version, Some("ATA8-ACS".to_string()));
    assert_eq!(id.hpa, Ternary::Enabled);
    assert_eq!(id.apm, Ternary::Unsupported);
    assert_eq!(id.aam, Ternary::Disabled);
    assert_eq!(id.read_look_ahead, Ternary::Enabled);
    assert_eq!(id.write_cache, Ternary::Enabled);
    assert!(id.power_mgmt_supported);
    assert!(id.gp_logging_supported);
    assert!(!id.trusted_computing_supported);
    assert_eq!(id.security, Ternary::Disabled);
    assert_eq!(id.smart, Ternary::Enabled);
    assert!(id.smart_error_logging_supported);
    assert!(!id.smart_self_test_supported);
}

#[test]
fn capability_states_of_health_monitoring() {
    let mut data = identification();
    put_word(&mut data, 85, 0);
    assert_eq!(parse_id(&data).smart, Ternary::Disabled);
    put_word(&mut data, 82, 0);
    assert_eq!(parse_id(&data).smart, Ternary::Unsupported);
    put_word(&mut data, 85, 1);
    assert_eq!(parse_id(&data).smart, Ternary::Unsupported);
}

#[test]
fn empty_identification() {
    let id = parse_id(&[0u8; 512]);
    assert_eq!(id.model, "\0".repeat(40));
    assert_eq!(id.rpm, RPM::Unknown);
    assert_eq!(id.capacity, 0);
    assert_eq!(id.sector_size_log, 512);
    assert_eq!(id.sector_size_phy, 512);
    assert_eq!(id.ata_version, None);
    assert_eq!(id.smart, Ternary::Unsupported);
    let mut blank = [0u8; 512];
    put_text(&mut blank, 27, 20, "");
    assert_eq!(parse_id(&blank).model, "");
}

#[test]
fn sizes_and_rates() {
    let mut data = identification();
    put_word(&mut data, 83, 0);
    assert_eq!(parse_id(&data).capacity, 0x0fffffff * 512);
    put_word(&mut data, 106, 0x4000 | 0x1000);
    put_word(&mut data, 117, 2048);
    put_word(&mut data, 118, 0);
    let id = parse_id(&data);
    assert_eq!(id.sector_size_log, 4096);
    assert_eq!(id.sector_size_phy, 4096);
    assert_eq!(id.capacity, 0x0fffffff * 4096);
    put_word(&mut data, 106, 0x4000 | 0x1000 | 0x2000 | 15);
    put_word(&mut data, 117, 0xffff);
    put_word(&mut data, 118, 0xffff);
    let id = parse_id(&data);
    assert_eq!(id.sector_size_log, u32::MAX);
    assert_eq!(id.sector_size_phy, u32::MAX);
    put_word(&mut data, 106, 0xc000 | 0x1000);
    assert_eq!(parse_id(&data).sector_size_log, 512);
    put_word(&mut data, 83, 0x0400);
    for w in 100..104 {
        put_word(&mut data, w, 0xffff);
    }
    assert_eq!(parse_id(&data).capacity, u64::MAX);
    put_word(&mut data, 217, 1);
    assert_eq!(parse_id(&data).rpm, RPM::NonRotating);
    put_word(&mut data, 217, 0x0400);
    assert_eq!(parse_id(&data).rpm, RPM::Unknown);
    put_word(&mut data, 217, 0xffff);
    assert_eq!(parse_id(&data).rpm, RPM::Unknown);
    put_word(&mut data, 0, 4);
    assert!(parse_id(&data).incomplete);
    put_word(&mut data, 80, 0xffff);
    assert_eq!(parse_id(&data).ata_version, None);
    put_word(&mut data, 80, 0x0ff0);
    assert_eq!(parse_id(&data).ata_version, Some("ACS-4".to_string()));
    put_word(&mut data, 80, 0x0070);
    assert_eq!(parse_id(&data).ata_version, Some("ATA/ATAPI-6".to_string()));
    put_word(&mut data, 80, 0x000e);
    assert_eq!(parse_id(&data).ata_version, None);
}

fn tables() -> ([u8; 512], [u8; 512]) {
    let mut data = [0u8; 512];
    let mut thresh = [0u8; 512];
    let entries: [[u8; 12]; 3] = [
        [1, 0x0f, 0x00, 100, 99, 0x10, 0x20, 0x30, 0, 0, 0, 7],
        [0; 12],
        [194, 0x22, 0x01, 30, 45, 30, 0, 20, 0, 45, 0, 0],
    ];
    for (i, e) in entries.iter().enumerate() {
        data[2 + 12 * i..14 + 12 * i].copy_from_slice(e);
    }
    thresh[2 + 12 * 5] = 1;
    thresh[3 + 12 * 5] = 6;
    thresh[2 + 12 * 7] = 1;
    thresh[3 + 12 * 7] = 9;
    (data, thresh)
}

fn brief(a: &SmartAttribute) -> (u8, Option<String>, u16, Option<u8>, Option<u8>, Option<u8>, String) {
    (a.id, a.name.clone(), a.flags, a.value, a.worst, a.thresh, a.raw.clone())
}

#[test]
fn attributes_without_presets() {
    let (data, thresh) = tables();
    let attrs = parse_smart_values(&data, &thresh, &None);
    assert_eq!(attrs.len(), 2);
    assert_eq!(
        brief(&attrs[0]),
        (1, None, 0, Some(100), Some(99), Some(6), format!("{}", 0x302010))
    );
    assert!(attrs[0].pre_fail && attrs[0].online && attrs[0].performance && attrs[0].error_rate);
    assert!(!attrs[0].event_count && !attrs[0].self_preserving);
    assert_eq!(
        brief(&attrs[1]),
        (194, None, 0x0100, Some(30), Some(45), None, format!("{}", 0x002d_0014_001e_u64))
    );
    assert!(!attrs[1].pre_fail && attrs[1].online && attrs[1].self_preserving);
}

#[test]
fn attributes_with_presets() {
    let (data, thresh) = tables();
    let found = Match {
        family: None,
        warning: None,
        presets: parse(&"-v 1,raw24:012,Raw_Read_Error_Rate -v 194,tempminmax:rvw0,Temp -v 9,raw48,Unused".to_string())
            .unwrap(),
    };
    let attrs = parse_smart_values(&data, &thresh, &Some(found));
    assert_eq!(attrs.len(), 2);
    assert_eq!(
        brief(&attrs[0]),
        (
            1,
            Some("Raw_Read_Error_Rate".to_string()),
            0,
            Some(100),
            Some(99),
            Some(6),
            format!("{}", 0x102030)
        )
    );
    assert_eq!(
        brief(&attrs[1]),
        (194, Some("Temp".to_string()), 0x0100, None, None, None, format!("{}", 0x001e_2d1e))
    );
}

#[test]
fn long_byte_order_keeps_the_last_eight_bytes() {
    let (data, thresh) = tables();
    let found = Match {
        family: None,
        warning: None,
        presets: parse(&"-v 1,raw64:r5432100012x".to_string()).unwrap(),
    };
    let attrs = parse_smart_values(&data, &thresh, &Some(found));
    assert_eq!(attrs[0].raw, format!("{}", 0x3020_1010_1020_3000_u64));
}

#[test]
fn empty_tables_hold_no_attribute() {
    assert_eq!(parse_smart_values(&[0u8; 512], &[0u8; 512], &None).len(), 0);
    let mut full = [0u8; 512];
    for i in 0..30 {
        full[2 + 12 * i] = (i + 1) as u8;
    }
    full[2 + 12 * 30] = 99;
    let attrs = parse_smart_values(&full, &[0u8; 512], &None);
    assert_eq!(attrs.len(), 30);
    assert_eq!(attrs[29].id, 30);
    assert_eq!(attrs[0].thresh, None);
}
