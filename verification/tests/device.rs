use hdd::device::{device_path, is_disk, list_devices, BlockEntry, Type, Verdict};

fn lines(text: &[&str]) -> Option<Vec<Option<String>>> {
    Some(text.iter().map(|l| Some(l.to_string())).collect())
}

fn disk(name: &str, generic: Option<&str>) -> BlockEntry {
    BlockEntry {
        name: name.to_string(),
        path: Some(format!("/sys/devices/pci0000:00/0000:00:1f.2/ata1/host0/target0:0:0/0:0:0:0/block/{}", name)),
        driver: Some("sd".to_string()),
        uevent: lines(&["MAJOR=8", "MINOR=0", "DEVNAME=sda", "DEVTYPE=disk"]),
        generic: generic.map(|g| g.to_string()),
    }
}

fn names(found: &[&str]) -> Vec<String> {
    found.iter().map(|n| n.to_string()).collect()
}

fn listed(block: Vec<BlockEntry>, generic: &[&str]) -> Vec<String> {
    list_devices::<()>(Ok(block), Ok(names(generic))).unwrap()
}

#[test]
fn block_entry_without_alias_and_unrelated_generic_entry() {
    assert_eq!(listed(vec![disk("sda", None)], &["sg3"]), names(&["/dev/sda", "/dev/sg3"]));
}

#[test]
fn aliased_generic_entry_is_listed_once() {
    let found = listed(vec![disk("sda", Some("sg0"))], &["sg0"]);
    assert_eq!(found, names(&["/dev/sda"]));
    let found = listed(vec![disk("sda", Some("sg0")), disk("sdb", Some("sg2"))], &["sg0", "sg1", "sg2"]);
    assert_eq!(found, names(&["/dev/sda", "/dev/sdb", "/dev/sg1"]));
}

#[test]
fn order_of_the_listings_is_kept() {
    let found = listed(
        vec![disk("sdc", None), disk("sda", None), disk("sdb", None)],
        &["sg9", "sg1", "sg5"],
    );
    assert_eq!(
        found,
        names(&["/dev/sdc", "/dev/sda", "/dev/sdb", "/dev/sg9", "/dev/sg1", "/dev/sg5"])
    );
}

#[test]
fn empty_listings_give_no_device() {
    assert_eq!(listed(vec![], &[]), Vec::<String>::new());
}

#[test]
fn alias_of_rejected_entry_is_still_listed() {
    let mut floppy = disk("fd0", Some("sg4"));
    floppy.path = Some("/sys/devices/platform/floppy.0/block/fd0".to_string());
    assert_eq!(listed(vec![floppy], &["sg4"]), names(&["/dev/sg4"]));
}

#[test]
fn listing_failure_is_handed_back() {
    let r = list_devices(Err("block"), Ok(names(&["sg0"])));
    assert_eq!(r, Err("block"));
    let r = list_devices(Ok(vec![disk("sda", None)]), Err("generic"));
    assert_eq!(r, Err("generic"));
    let r = list_devices(Err("block"), Err("generic"));
    assert_eq!(r, Err("block"));
}

#[test]
fn verdicts_in_order() {
    let mut e = disk("sda", None);
    assert_eq!(e.verdict(), Verdict::Disk);
    e.uevent = lines(&["DEVTYPE=partition"]);
    assert_eq!(e.verdict(), Verdict::NotDisk);
    e.uevent = None;
    assert_eq!(e.verdict(), Verdict::Untyped);
    let mut v = disk("vda", None);
    v.driver = Some("virtio_blk".to_string());
    assert_eq!(v.verdict(), Verdict::Paravirtual);
    v.path = Some("/sys/devices/platform/floppy.0/block/vda".to_string());
    assert_eq!(v.verdict(), Verdict::Floppy);
    v.path = Some("/sys/devices/virtual/block/vda".to_string());
    assert_eq!(v.verdict(), Verdict::Virtual);
    v.path = None;
    assert_eq!(v.verdict(), Verdict::Unresolved);
}

#[test]
fn virtual_devices_are_turned_away() {
    for name in ["loop0", "ram0", "zram0", "md0", "dm-0"] {
        let mut e = disk(name, None);
        e.path = Some(format!("/sys/devices/virtual/block/{}", name));
        assert_eq!(e.verdict(), Verdict::Virtual);
        assert_eq!(listed(vec![e], &[]), Vec::<String>::new());
    }
    let mut e = disk("sda", None);
    e.path = Some("/sys/devices/virtual".to_string());
    assert_eq!(e.verdict(), Verdict::Virtual);
    e.path = Some("/sys/devices/virtualized/block/sda".to_string());
    assert_eq!(e.verdict(), Verdict::Disk);
}

#[test]
fn floppy_is_matched_by_prefix() {
    let mut e = disk("fd0", None);
    e.path = Some("/sys/devices/platform/floppy.0/block/fd0".to_string());
    assert_eq!(e.verdict(), Verdict::Floppy);
    e.path = Some("/sys/devices/platform/floppy".to_string());
    assert_eq!(e.verdict(), Verdict::Floppy);
    e.path = Some("/sys/devices/platform/flopp/block/fd0".to_string());
    assert_eq!(e.verdict(), Verdict::Disk);
}

#[test]
fn paravirtual_block_driver_only() {
    let mut e = disk("vda", None);
    e.driver = Some("virtio_blk".to_string());
    assert_eq!(e.verdict(), Verdict::Paravirtual);
    e.driver = Some("virtio_scsi".to_string());
    assert_eq!(e.verdict(), Verdict::Disk);
    e.driver = None;
    assert_eq!(e.verdict(), Verdict::Disk);
    let mut s = disk("sda", None);
    s.driver = Some("virtio_blk".to_string());
    assert_eq!(s.verdict(), Verdict::Disk);
}

#[test]
fn disk_marker_must_come_first() {
    assert!(is_disk(&lines(&["DEVTYPE=disk"]).unwrap()));
    assert!(is_disk(&lines(&["MAJOR=8", "DEVTYPE=disk", "DEVTYPE=partition"]).unwrap()));
    assert!(!is_disk(&lines(&["DEVTYPE=partition", "DEVTYPE=disk"]).unwrap()));
    assert!(!is_disk(&lines(&["DEVTYPE=", "DEVTYPE=disk"]).unwrap()));
    assert!(!is_disk(&lines(&["DEVTYPE=disk "]).unwrap()));
    assert!(!is_disk(&lines(&["DEVTYPE=disks"]).unwrap()));
    assert!(!is_disk(&lines(&[" DEVTYPE=disk"]).unwrap()));
    assert!(!is_disk(&lines(&["MAJOR=8", "MINOR=0"]).unwrap()));
    assert!(!is_disk(&lines(&[]).unwrap()));
    assert!(is_disk(&lines(&["devtype=partition", "DEVTYPE=disk"]).unwrap()));
}

#[test]
fn unreadable_line_rejects() {
    let before = vec![Some("MAJOR=8".to_string()), None, Some("DEVTYPE=disk".to_string())];
    assert!(!is_disk(&before));
    let after = vec![Some("DEVTYPE=disk".to_string()), None];
    assert!(is_disk(&after));
}

#[test]
fn device_files() {
    assert_eq!(device_path("sda"), "/dev/sda");
    assert_eq!(device_path(""), "/dev/");
}

#[test]
fn no_duplicates_for_distinct_names() {
    let found = listed(
        vec![disk("sda", Some("sg0")), disk("sdb", Some("sg1")), disk("sdc", None)],
        &["sg0", "sg1", "sg2", "sg3"],
    );
    let mut sorted = found.clone();
    sorted.sort();
    sorted.dedup();
    assert_eq!(sorted.len(), found.len());
    assert_eq!(found.len(), 5);
}

#[test]
fn device_type_is_scsi() {
    assert_eq!(Type::SCSI, Type::SCSI);
}
