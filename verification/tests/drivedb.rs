use hdd::drivedb::{anchored, applies, entry_holds_for, load, match_entry, Entry};
use hdd::info::parse_id;
use hdd::presets::parse;

const TEXT: &str = r#"
/* a database of drives
 * { "not", "an", "entry", "at", "all" },
 */
const drive_settings builtin_knowndrives[] = {
// { "nor", "this", "", "", "" },
  { "DEFAULT",
    "-", "-",
    "Default settings",
    "-v 1,raw48,Raw_Read_Error_Rate "
    "-v 9,raw24(raw8),Power_On_Hours "
    "-v 194,tempminmax,Temperature_Celsius"
  },
  { "USB: Some bridge",
    "ST500.*", "",
    "",
    "-d sat"
  },
  { "Seagate Barracuda 7200.14 (AF)",
    "ST(1000|1500|2000|2500|3000)DM00[1-3]-.*|ST500DM002-.*",
    "",
    "A firmware update for this drive may be available,\nsee the \"vendor\" pages",
    "-v 9,msec24hour32,Power_On_Milliseconds -v 240,msec24hour32"
  },
  { "Later entry for the same drives",
    "ST500DM002-.*", "KC4[0-9]", "", "" },
  { "Broken", "(", "", "" ,"" },
  { "too", "short" },
};
"#;

fn entry(family: &str, model: &str, firmware: &str) -> Entry {
    Entry {
        family: family.to_string(),
        model: model.to_string(),
        firmware: firmware.to_string(),
        warning: String::new(),
        presets: String::new(),
    }
}

fn drive(model: &str, firmware: &str) -> hdd::info::Id {
    let mut id = parse_id(&[0u8; 512]);
    id.model = model.to_string();
    id.firmware = firmware.to_string();
    id
}

#[test]
fn database_text_is_read() {
    let entries = load(TEXT);
    assert_eq!(entries.len(), 5);
    assert_eq!(entries[0].family, "DEFAULT");
    assert_eq!(entries[0].model, "-");
    assert_eq!(entries[0].warning, "Default settings");
    assert_eq!(
        entries[0].presets,
        "-v 1,raw48,Raw_Read_Error_Rate -v 9,raw24(raw8),Power_On_Hours -v 194,tempminmax,Temperature_Celsius"
    );
    assert_eq!(entries[1].family, "USB: Some bridge");
    assert_eq!(entries[2].family, "Seagate Barracuda 7200.14 (AF)");
    assert_eq!(
        entries[2].warning,
        "A firmware update for this drive may be available,\nsee the \"vendor\" pages"
    );
    assert_eq!(entries[2].firmware, "");
    assert_eq!(entries[3].firmware, "KC4[0-9]");
    assert_eq!(entries[4].model, "(");
}

#[test]
fn odd_database_texts() {
    assert_eq!(load("").len(), 0);
    assert_eq!(load("{ \"a\", \"b\", \"c\", \"d\", \"e\" ").len(), 0);
    assert_eq!(load("{ \"a\", \"b\", \"c\", \"d\" }").len(), 0);
    assert_eq!(load("{ \"a\", \"b\", \"c\", \"d\", \"e\", \"f\" }").len(), 0);
    let entries = load("{\"a\",\"b\"\"c\",\"\",\"d\\\\.\\t\",\"e\"}/");
    assert_eq!(entries.len(), 1);
    assert_eq!(entries[0].model, "bc");
    assert_eq!(entries[0].firmware, "");
    assert_eq!(entries[0].warning, "d\\.\t");
    let entries = load("// {\n{ \"1\", /* \"x\", **/ \"2\", \"3\" / \"4\", \"5\", \"6\", }");
    assert_eq!(entries.len(), 1);
    assert_eq!(entries[0].model, "2");
    assert_eq!(entries[0].firmware, "34");
    assert_eq!(entries[0].warning, "5");
    assert_eq!(entries[0].presets, "6");
}

#[test]
fn patterns_take_up_the_whole_text() {
    assert_eq!(anchored("ST500.*"), "^(?:ST500.*)$");
    let e = entry("Family", "ST500DM00[1-3]", "");
    assert!(entry_holds_for(&e, "ST500DM002", "KC45"));
    assert!(!entry_holds_for(&e, "ST500DM0022", "KC45"));
    assert!(!entry_holds_for(&e, "XST500DM002", "KC45"));
    assert!(!entry_holds_for(&e, "ST500DM00[1-3]", "KC45"));
    let e = entry("Family", "a|b", "");
    assert!(entry_holds_for(&e, "a", ""));
    assert!(entry_holds_for(&e, "b", ""));
    assert!(!entry_holds_for(&e, "ab", ""));
}

#[test]
fn firmware_pattern_counts_unless_empty() {
    let e = entry("Family", "ST500.*", "KC4[0-9]");
    assert!(entry_holds_for(&e, "ST500DM002", "KC45"));
    assert!(!entry_holds_for(&e, "ST500DM002", "KC55"));
    assert!(!entry_holds_for(&e, "ST600DM002", "KC45"));
}

#[test]
fn entries_that_hold_for_no_drive() {
    assert!(!entry_holds_for(&entry("DEFAULT", ".*", ""), "ST500", ""));
    assert!(!entry_holds_for(&entry("USB: bridge", ".*", ""), "ST500", ""));
    assert!(entry_holds_for(&entry("USB bridge", ".*", ""), "ST500", ""));
    assert!(!entry_holds_for(&entry("Broken", "(", ""), "(", ""));
    assert!(!entry_holds_for(&entry("Broken", ".*", "["), "ST500", "["));
}

#[test]
fn entry_holds_by_what_the_patterns_found() {
    let e = entry("Family", "m", "f");
    assert!(applies(&e, Some(true), Some(true)));
    assert!(!applies(&e, Some(true), Some(false)));
    assert!(!applies(&e, Some(true), None));
    assert!(!applies(&e, Some(false), Some(true)));
    assert!(!applies(&e, None, Some(true)));
    let e = entry("Family", "m", "");
    assert!(applies(&e, Some(true), None));
    assert!(applies(&e, Some(true), Some(false)));
    assert!(!applies(&entry("DEFAULT", "m", ""), Some(true), Some(true)));
}

#[test]
fn first_entry_that_holds_is_taken() {
    let entries = load(TEXT);
    let user = parse(&"-v 194,raw16,My_Temperature -v 5,raw16".to_string()).unwrap();
    let found = match_entry(&drive("ST500DM002-1BD142", "KC45"), &entries, user);
    assert_eq!(found.family, Some("Seagate Barracuda 7200.14 (AF)".to_string()));
    assert_eq!(
        found.warning,
        Some("A firmware update for this drive may be available,\nsee the \"vendor\" pages".to_string())
    );
    assert_eq!(found.presets.len(), 5);
    assert_eq!(found.presets[&1].name, Some("Raw_Read_Error_Rate".to_string()));
    assert_eq!(found.presets[&9].format, "msec24hour32");
    assert_eq!(found.presets[&9].name, Some("Power_On_Milliseconds".to_string()));
    assert_eq!(found.presets[&194].format, "raw16");
    assert_eq!(found.presets[&194].name, Some("My_Temperature".to_string()));
    assert_eq!(found.presets[&240].byte_order, "r543210");
    assert_eq!(found.presets[&5].format, "raw16");
}

#[test]
fn unknown_drive_gets_the_presets_for_every_drive() {
    let entries = load(TEXT);
    let user = parse(&"-v 9,raw16".to_string()).unwrap();
    let found = match_entry(&drive("WDC WD10EZEX", "01.01A01"), &entries, user);
    assert_eq!(found.family, None);
    assert_eq!(found.warning, None);
    assert_eq!(found.presets.len(), 3);
    assert_eq!(found.presets[&9].format, "raw16");
    assert_eq!(found.presets[&194].format, "tempminmax");
}

#[test]
fn entry_without_warning_gives_none() {
    let entries = load("{ \"Family\", \"ST.*\", \"\", \"\", \"-v 3,raw16 -x\" }");
    let user = parse(&"".to_string()).unwrap();
    let found = match_entry(&drive("ST500", ""), &entries, user);
    assert_eq!(found.family, Some("Family".to_string()));
    assert_eq!(found.warning, None);
    assert_eq!(found.presets.len(), 0);
    let found = match_entry(&drive("ST500", ""), &vec![], parse(&"-v 1,raw8".to_string()).unwrap());
    assert_eq!(found.family, None);
    assert_eq!(found.presets.len(), 1);
}
