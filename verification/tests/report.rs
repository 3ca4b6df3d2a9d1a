use hdd::attr::{classify, Fail, SmartAttribute};
use hdd::cam::CAMError;
use hdd::report::{
    attribute_line, bool_to_flag, bool_to_sup, capacity_line, fail_label, health_label,
    health_line, json_line, lines, list, refuse_device, render_attributes, ListError,
};

#[test]
fn value_at_threshold_is_failing_now() {
    assert_eq!(classify(Some(5), Some(90), Some(10)), Fail::Now);
    assert_eq!(classify(Some(5), Some(5), Some(10)), Fail::Now);
    assert_eq!(classify(Some(10), None, Some(10)), Fail::Now);
    assert_eq!(classify(Some(0), Some(0), Some(0)), Fail::Now);
}

#[test]
fn worst_at_threshold_has_failed_in_the_past() {
    assert_eq!(classify(Some(50), Some(5), Some(10)), Fail::Past);
    assert_eq!(classify(Some(11), Some(10), Some(10)), Fail::Past);
    assert_eq!(classify(None, Some(10), Some(10)), Fail::Past);
}

#[test]
fn unknown_threshold_is_never_a_failure() {
    for value in [None, Some(0), Some(1), Some(255)] {
        for worst in [None, Some(0), Some(1), Some(255)] {
            assert_eq!(classify(value, worst, None), Fail::Never);
        }
    }
}

#[test]
fn above_threshold_is_no_failure() {
    assert_eq!(classify(Some(100), Some(99), Some(10)), Fail::Never);
    assert_eq!(classify(Some(11), Some(11), Some(10)), Fail::Never);
    assert_eq!(classify(None, None, Some(10)), Fail::Never);
    assert_eq!(classify(Some(11), None, Some(10)), Fail::Never);
}

#[test]
fn failure_marks() {
    assert_eq!(fail_label(Fail::Now), "NOW ");
    assert_eq!(fail_label(Fail::Past), "past");
    assert_eq!(fail_label(Fail::Never), "-   ");
}

#[test]
fn support_and_flags() {
    assert_eq!(bool_to_sup(true), "supported");
    assert_eq!(bool_to_sup(false), "not supported");
    assert_eq!(bool_to_flag(true, 'P'), 'P');
    assert_eq!(bool_to_flag(false, 'P'), '-');
}

#[test]
fn health_is_three_valued() {
    assert_eq!(health_label(Some(true)), "good");
    assert_eq!(health_label(Some(false)), "BAD");
    assert_eq!(health_label(None), "(unknown)");
    assert_eq!(health_line(Some(false)), "S.M.A.R.T. health status: BAD\n");
}

#[test]
fn capacity_has_thousands_separators() {
    assert_eq!(capacity_line(0), "Capacity: 0 bytes\n");
    assert_eq!(capacity_line(999), "Capacity: 999 bytes\n");
    assert_eq!(capacity_line(1000), "Capacity: 1,000 bytes\n");
    assert_eq!(capacity_line(1234567), "Capacity: 1,234,567 bytes\n");
    assert_eq!(capacity_line(500107862016), "Capacity: 500,107,862,016 bytes\n");
    assert_eq!(capacity_line(u64::MAX), "Capacity: 18,446,744,073,709,551,615 bytes\n");
}

fn attribute(id: u8, name: Option<&str>, flags: u16, v: Option<u8>, w: Option<u8>, t: Option<u8>) -> SmartAttribute {
    SmartAttribute {
        id,
        name: name.map(|n| n.to_string()),
        pre_fail: id % 2 == 1,
        online: id % 3 == 0,
        performance: id % 5 == 0,
        error_rate: id % 7 == 0,
        event_count: id % 4 == 0,
        self_preserving: id % 2 == 0,
        flags,
        value: v,
        worst: w,
        thresh: t,
        raw: format!("{}", id as u32 * 1000),
    }
}

fn expected_line(val: &SmartAttribute) -> String {
    format!(
        "{:3} {:.<24} {}{}{}{}{}{}{}    {}   {}    {} {} {}\n",
        val.id,
        val.name.as_ref().unwrap_or(&"?".to_string()),
        bool_to_flag(val.pre_fail, 'P'),
        bool_to_flag(!val.online, 'O'),
        bool_to_flag(val.performance, 'S'),
        bool_to_flag(val.error_rate, 'R'),
        bool_to_flag(val.event_count, 'C'),
        bool_to_flag(val.self_preserving, 'K'),
        if val.flags == 0 { "     ".to_string() } else { format!("+{:04x}", val.flags) },
        val.value.map(|v| format!("{:3}", v)).unwrap_or("---".to_string()),
        val.worst.map(|v| format!("{:3}", v)).unwrap_or("---".to_string()),
        val.thresh.map(|v| format!("{:3}", v)).unwrap_or("(?)".to_string()),
        match (val.value, val.worst, val.thresh) {
            (Some(v), _, Some(t)) if v <= t => "NOW ",
            (_, Some(w), Some(t)) if w <= t => "past",
            _ => "-   ",
        },
        val.raw,
    )
}

#[test]
fn attribute_line_exact() {
    let a = SmartAttribute {
        id: 5,
        name: Some("Reallocated_Sector_Ct".to_string()),
        pre_fail: true,
        online: true,
        performance: false,
        error_rate: false,
        event_count: true,
        self_preserving: true,
        flags: 0,
        value: Some(100),
        worst: Some(9),
        thresh: Some(36),
        raw: "0".to_string(),
    };
    assert_eq!(
        attribute_line(&a),
        "  5 Reallocated_Sector_Ct... P---CK         100     9     36 past 0\n"
    );
}

#[test]
fn attribute_lines_agree_with_formatting() {
    let names = [
        None,
        Some(""),
        Some("Temperature"),
        Some("Exactly_24_characters_xx"),
        Some("A_name_longer_than_the_column_allows"),
        Some("Größe_µ"),
    ];
    let bytes = [None, Some(0u8), Some(7), Some(10), Some(99), Some(100), Some(255)];
    let flags = [0u16, 1, 0x0f, 0x10, 0xabc, 0x1000, 0xffff];
    let mut n = 0usize;
    for id in [0u8, 1, 9, 10, 12, 99, 100, 105, 140, 210, 255] {
        for name in names {
            n += 1;
            let a = attribute(
                id,
                name,
                flags[n % flags.len()],
                bytes[n % bytes.len()],
                bytes[(n / 2) % bytes.len()],
                bytes[(n / 3) % bytes.len()],
            );
            assert_eq!(attribute_line(&a), expected_line(&a));
        }
    }
}

#[test]
fn attribute_table() {
    assert_eq!(render_attributes(&vec![]), "No S.M.A.R.T. attributes found.\n");
    let values = vec![
        attribute(1, Some("Raw_Read_Error_Rate"), 0, Some(100), Some(100), Some(6)),
        attribute(194, None, 0x20, Some(30), None, None),
    ];
    let mut expected = String::new();
    expected += "S.M.A.R.T. attribute values:\n";
    expected += " ID name                     flags        value worst thresh fail raw\n";
    for v in &values {
        expected += &expected_line(v);
    }
    expected += "                             │││││└─ K auto-keep\n";
    expected += "                             ││││└── C event count\n";
    expected += "                             │││└─── R error rate\n";
    expected += "                             ││└──── S speed/performance\n";
    expected += "                             │└───── O updated during off-line testing\n";
    expected += "                             └────── P prefailure warning\n";
    assert_eq!(render_attributes(&values), expected);
}

#[test]
fn list_one_to_a_line() {
    let devs = vec!["/dev/sda".to_string(), "/dev/sg1".to_string()];
    assert_eq!(list(&None, &devs, false), Ok("/dev/sda\n/dev/sg1\n".to_string()));
    assert_eq!(list(&None, &vec![], false), Ok("".to_string()));
    assert_eq!(lines(&devs), "/dev/sda\n/dev/sg1\n");
}

#[test]
fn list_as_json() {
    let devs = vec!["/dev/sda".to_string(), "/dev/\"odd\"".to_string()];
    assert_eq!(
        list(&None, &devs, true),
        Ok("[\"/dev/sda\",\"/dev/\\\"odd\\\"\"]\n".to_string())
    );
    assert_eq!(list(&None, &vec![], true), Ok("[]\n".to_string()));
    assert_eq!(json_line(Ok("[]".to_string())), Ok("[]\n".to_string()));
}

#[test]
fn json_failure_is_reported() {
    let broken = serde_json::from_str::<u8>("x").unwrap_err();
    assert_eq!(json_line(Err(broken)), Err(ListError::Json));
}

#[test]
fn list_takes_no_device() {
    let devs = vec!["/dev/sda".to_string()];
    assert_eq!(list(&Some("/dev/sda"), &devs, false), Err(ListError::RedundantDevice));
    assert_eq!(list(&Some("/dev/sda"), &devs, true), Err(ListError::RedundantDevice));
    assert_eq!(ListError::RedundantDevice.message(), "<device> is redundant\n");
    assert_eq!(refuse_device(&Some("/dev/sda")), Err(ListError::RedundantDevice));
    assert_eq!(refuse_device(&None), Ok(()));
}

#[test]
fn cam_error_texts() {
    let e = CAMError::new("cam_open_device: no such device".to_string());
    assert_eq!(e.description(), "cam_open_device: no such device");
    assert_eq!(e.to_string(), "CAM error: cam_open_device: no such device");
    assert!(e.cause().is_none());
}
