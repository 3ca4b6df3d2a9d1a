//! Discovery of physical disks from what the host lists about its block and
//! generic SCSI devices.
//!
//! The caller reads the two class trees and hands over what it found; the
//! decisions are made here. A block entry is a disk only if its canonical
//! path is known and lies outside the virtual-device and floppy namespaces,
//! if it is not driven by the paravirtualized block driver, and if its
//! device-type descriptor announces a disk. A generic SCSI entry is taken
//! unless it is the pass-through alias of a block entry already taken.
use crate::text::{has_prefix, same_text, starts_with};
use vstd::prelude::*;

verus! {

broadcast use vstd::string::group_string_axioms;

/// The kind of a device that has been opened.
#[derive(Debug, Clone, Copy, PartialEq, Eq)]
pub enum Type {
    SCSI,
}

/// What the host shows of one entry of the block-device class tree.
#[derive(Debug)]
pub struct BlockEntry {
    /// Name of the entry in the class tree.
    pub name: String,
    /// Canonical path of the entry; `None` where it could not be resolved.
    pub path: Option<String>,
    /// Name of the driver that the entry's driver link leads to; `None`
    /// where the link could not be read.
    pub driver: Option<String>,
    /// Lines of the entry's device-type descriptor, in order; `None` where
    /// it could not be opened. A line that could not be read is `None`.
    pub uevent: Option<Vec<Option<String>>>,
    /// Name of the entry's generic pass-through alias, if it has one.
    pub generic: Option<String>,
}

/// What a [`BlockEntry`] holds, as plain text.
pub struct BlockEntryView {
    pub name: Seq<char>,
    pub path: Option<Seq<char>>,
    pub driver: Option<Seq<char>>,
    pub uevent: Option<Seq<Option<Seq<char>>>>,
    pub generic: Option<Seq<char>>,
}

impl DeepView for BlockEntry {
    type V = BlockEntryView;

    open spec fn deep_view(&self) -> BlockEntryView {
        BlockEntryView {
            name: self.name@,
            path: self.path.deep_view(),
            driver: self.driver.deep_view(),
            uevent: self.uevent.deep_view(),
            generic: self.generic.deep_view(),
        }
    }
}

impl View for BlockEntry {
    type V = BlockEntryView;

    open spec fn view(&self) -> BlockEntryView {
        self.deep_view()
    }
}

/// What the enumerator makes of a block entry.
#[derive(Debug, Clone, Copy, PartialEq, Eq)]
pub enum Verdict {
    /// The canonical path is not known.
    Unresolved,
    /// The entry lies in the virtual-device namespace.
    Virtual,
    /// The entry belongs to the floppy controller.
    Floppy,
    /// The entry is driven by the paravirtualized block driver.
    Paravirtual,
    /// The device-type descriptor could not be opened.
    Untyped,
    /// The device-type descriptor does not announce a disk.
    NotDisk,
    /// The entry is a physical disk.
    Disk,
}

/// Whether the canonical path `p` lies in the virtual-device namespace.
pub open spec fn under_virtual(p: Seq<char>) -> bool {
    p == "/sys/devices/virtual"@ || has_prefix(p, "/sys/devices/virtual/"@)
}

/// Whether the canonical path `p` belongs to the floppy controller.
pub open spec fn under_floppy(p: Seq<char>) -> bool {
    has_prefix(p, "/sys/devices/platform/floppy"@)
}

/// Whether a descriptor line is read and says nothing of the device type.
pub open spec fn passes_over(line: Option<Seq<char>>) -> bool {
    line matches Some(l) && !has_prefix(l, "DEVTYPE="@)
}

/// Whether the descriptor announces a disk: the line `DEVTYPE=disk` stands
/// in it, and every line before that one was read and names no device type.
pub open spec fn announces_disk(lines: Seq<Option<Seq<char>>>) -> bool {
    exists|i: int|
        0 <= i < lines.len() && #[trigger] lines[i] == Some("DEVTYPE=disk"@) && forall|j: int|
            0 <= j < i ==> passes_over(#[trigger] lines[j])
}

/// The verdict on a block entry.
pub open spec fn spec_verdict(e: BlockEntryView) -> Verdict {
    match e.path {
        None => Verdict::Unresolved,
        Some(p) => if under_virtual(p) {
            Verdict::Virtual
        } else if under_floppy(p) {
            Verdict::Floppy
        } else if has_prefix(e.name, "v"@) && e.driver == Some("virtio_blk"@) {
            Verdict::Paravirtual
        } else {
            match e.uevent {
                None => Verdict::Untyped,
                Some(lines) => if announces_disk(lines) {
                    Verdict::Disk
                } else {
                    Verdict::NotDisk
                },
            }
        },
    }
}

/// Tells whether a device-type descriptor announces a disk.
pub fn is_disk(lines: &Vec<Option<String>>) -> (r: bool)
    ensures
        r == announces_disk(lines.deep_view()),
{
    let ghost view = lines.deep_view();
    proof {
        reveal_strlit("DEVTYPE=disk");
        reveal_strlit("DEVTYPE=");
        assert("DEVTYPE=disk"@.subrange(0, 8) =~= "DEVTYPE="@);
    }
    let mut i: usize = 0;
    while i < lines.len()
        invariant
            i <= lines.len(),
            view == lines.deep_view(),
            has_prefix("DEVTYPE=disk"@, "DEVTYPE="@),
            forall|j: int| 0 <= j < i ==> passes_over(#[trigger] view[j]),
        decreases lines.len() - i,
    {
        assert(view[i as int] == lines[i as int].deep_view());
        match &lines[i] {
            Some(line) => {
                if same_text(line.as_str(), "DEVTYPE=disk") {
                    return true;
                }
                if starts_with(line.as_str(), "DEVTYPE=") {
                    assert(!announces_disk(view)) by {
                        if announces_disk(view) {
                            let k = choose|k: int|
                                0 <= k < view.len() && #[trigger] view[k] == Some("DEVTYPE=disk"@)
                                    && forall|j: int| 0 <= j < k ==> passes_over(#[trigger] view[j]);
                            if k < i {
                                assert(passes_over(view[k]));
                            } else if k > i {
                                assert(passes_over(view[i as int]));
                            }
                        }
                    }
                    return false;
                }
            },
            None => {
                assert(!announces_disk(view)) by {
                    if announces_disk(view) {
                        let k = choose|k: int|
                            0 <= k < view.len() && #[trigger] view[k] == Some("DEVTYPE=disk"@)
                                && forall|j: int| 0 <= j < k ==> passes_over(#[trigger] view[j]);
                        if k < i {
                            assert(passes_over(view[k]));
                        } else if k > i {
                            assert(passes_over(view[i as int]));
                        }
                    }
                }
                return false;
            },
        }
        i = i + 1;
    }
    assert(!announces_disk(view)) by {
        if announces_disk(view) {
            let k = choose|k: int|
                0 <= k < view.len() && #[trigger] view[k] == Some("DEVTYPE=disk"@) && forall|j: int|
                    0 <= j < k ==> passes_over(#[trigger] view[j]);
            assert(passes_over(view[k]));
        }
    }
    false
}

impl BlockEntry {
    /// Decides what the entry is.
    ///
    /// The tests are made in this order, and the first that applies decides:
    /// an unresolved path; a path in the virtual-device namespace; a path of
    /// the floppy controller; a name that begins with `v` together with the
    /// driver `virtio_blk`; a descriptor that could not be opened; a
    /// descriptor that does not announce a disk. Disks behind a
    /// paravirtualized SCSI controller are not turned away.
    pub fn verdict(&self) -> (r: Verdict)
        ensures
            r == spec_verdict(self.deep_view()),
    {
        let path = match &self.path {
            Some(p) => p,
            None => {
                return Verdict::Unresolved;
            },
        };
        if same_text(path.as_str(), "/sys/devices/virtual") || starts_with(
            path.as_str(),
            "/sys/devices/virtual/",
        ) {
            return Verdict::Virtual;
        }
        if starts_with(path.as_str(), "/sys/devices/platform/floppy") {
            return Verdict::Floppy;
        }
        if starts_with(self.name.as_str(), "v") {
            match &self.driver {
                Some(driver) => {
                    if same_text(driver.as_str(), "virtio_blk") {
                        return Verdict::Paravirtual;
                    }
                },
                None => {},
            }
        }
        match &self.uevent {
            None => Verdict::Untyped,
            Some(lines) => {
                if is_disk(lines) {
                    Verdict::Disk
                } else {
                    Verdict::NotDisk
                }
            },
        }
    }
}

/// Names of the block entries that are disks, in the order of the listing.
pub open spec fn block_names(entries: Seq<BlockEntryView>) -> Seq<Seq<char>>
    decreases entries.len(),
{
    if entries.len() == 0 {
        Seq::empty()
    } else {
        let before = block_names(entries.drop_last());
        if spec_verdict(entries.last()) is Disk {
            before.push(entries.last().name)
        } else {
            before
        }
    }
}

/// Whether `name` is the generic pass-through alias of a block entry that is
/// a disk.
pub open spec fn aliased(entries: Seq<BlockEntryView>, name: Seq<char>) -> bool {
    exists|i: int|
        0 <= i < entries.len() && spec_verdict(#[trigger] entries[i]) is Disk && entries[i].generic
            == Some(name)
}

/// Names of the generic SCSI entries that are no alias of a block entry that
/// is a disk, in the order of the listing.
pub open spec fn generic_names(entries: Seq<BlockEntryView>, generics: Seq<Seq<char>>) -> Seq<
    Seq<char>,
>
    decreases generics.len(),
{
    if generics.len() == 0 {
        Seq::empty()
    } else {
        let before = generic_names(entries, generics.drop_last());
        if aliased(entries, generics.last()) {
            before
        } else {
            before.push(generics.last())
        }
    }
}

/// Path of the device file of the entry `name`.
pub open spec fn device_file(name: Seq<char>) -> Seq<char> {
    "/dev/"@ + name
}

/// The device files of the disks: those of the block entries first, then
/// those that only a generic SCSI entry leads to.
pub open spec fn spec_list_devices(entries: Seq<BlockEntryView>, generics: Seq<Seq<char>>) -> Seq<
    Seq<char>,
> {
    (block_names(entries) + generic_names(entries, generics)).map_values(
        |name: Seq<char>| device_file(name),
    )
}

/// Tells whether `names` holds `name`.
fn holds(names: &Vec<String>, name: &String) -> (r: bool)
    ensures
        r == exists|i: int| 0 <= i < names.len() && (#[trigger] names[i])@ == name@,
{
    let mut i: usize = 0;
    while i < names.len()
        invariant
            i <= names.len(),
            forall|j: int| 0 <= j < i ==> (#[trigger] names[j])@ != name@,
        decreases names.len() - i,
    {
        if same_text(names[i].as_str(), name.as_str()) {
            return true;
        }
        i = i + 1;
    }
    false
}

/// Gives the path of the device file of the entry `name`.
pub fn device_path(name: &str) -> (r: String)
    ensures
        r@ == device_file(name@),
{
    let mut path = String::from_str("/dev/");
    path.append(name);
    path
}

/// Lists the device files of the physical disks of the host.
///
/// `block` is the listing of the block-device class tree and `generic` that
/// of the generic SCSI class tree, each with the error met if the tree could
/// not be listed. The block tree's error is returned before the generic
/// tree's; nothing about a single entry makes the call fail. The disks among
/// the block entries come first, in the order of the listing, then the
/// generic SCSI entries that are no pass-through alias of one of them.
pub fn list_devices<E>(block: Result<Vec<BlockEntry>, E>, generic: Result<Vec<String>, E>) -> (r:
    Result<Vec<String>, E>)
    ensures
        match (block, generic) {
            (Err(e), _) => r == Err::<Vec<String>, E>(e),
            (Ok(_), Err(e)) => r == Err::<Vec<String>, E>(e),
            (Ok(entries), Ok(generics)) => r matches Ok(paths) && paths.deep_view()
                == spec_list_devices(entries.deep_view(), generics.deep_view()),
        },
{
    let entries = match block {
        Ok(entries) => entries,
        Err(e) => {
            return Err(e);
        },
    };
    let generics = match generic {
        Ok(generics) => generics,
        Err(e) => {
            return Err(e);
        },
    };
    let ghost all = entries.deep_view();
    let ghost found = generics.deep_view();
    let mut devices: Vec<String> = Vec::new();
    let mut skip_generics: Vec<String> = Vec::new();
    let mut i: usize = 0;
    assert(all.subrange(0, 0) =~= Seq::<BlockEntryView>::empty());
    assert(devices.deep_view() =~= Seq::<Seq<char>>::empty());
    while i < entries.len()
        invariant
            i <= entries.len(),
            all == entries.deep_view(),
            devices.deep_view() == block_names(all.subrange(0, i as int)).map_values(
                |name: Seq<char>| device_file(name),
            ),
            forall|name: Seq<char>|
                aliased(all.subrange(0, i as int), name) <==> exists|k: int|
                    0 <= k < skip_generics.len() && (#[trigger] skip_generics[k])@ == name,
        decreases entries.len() - i,
    {
        let ghost upto = all.subrange(0, i as int);
        let ghost next = all.subrange(0, i + 1);
        let ghost before = devices.deep_view();
        let ghost skipped = skip_generics@;
        proof {
            assert(next.drop_last() =~= upto);
            assert(next.last() == entries[i as int].deep_view());
        }
        let entry = &entries[i];
        match entry.verdict() {
            Verdict::Disk => {
                devices.push(device_path(entry.name.as_str()));
                proof {
                    assert(devices.deep_view() =~= before.push(device_file(entry.name@)));
                    assert(block_names(next) == block_names(upto).push(entry.name@));
                    assert(block_names(next).map_values(|name: Seq<char>| device_file(name))
                        =~= before.push(device_file(entry.name@)));
                }
                match &entry.generic {
                    Some(alias) => {
                        skip_generics.push(alias.clone());
                        proof {
                            let added = skip_generics[skipped.len() as int];
                            assert(added@ == alias@);
                            assert forall|name: Seq<char>| aliased(next, name) <==> exists|k: int|
                                0 <= k < skip_generics.len() && (#[trigger] skip_generics[k])@
                                    == name by {
                                if aliased(next, name) {
                                    let w = choose|w: int|
                                        0 <= w < next.len() && spec_verdict(#[trigger] next[w])
                                            is Disk && next[w].generic == Some(name);
                                    if w < i {
                                        assert(upto[w] == next[w]);
                                        assert(aliased(upto, name));
                                        let k = choose|k: int|
                                            0 <= k < skipped.len() && (#[trigger] skipped[k])@
                                                == name;
                                        assert(skip_generics[k] == skipped[k]);
                                    } else {
                                        assert(skip_generics[skipped.len() as int]@ == name);
                                    }
                                }
                                if exists|k: int|
                                    0 <= k < skip_generics.len() && (#[trigger] skip_generics[k])@
                                        == name {
                                    let k = choose|k: int|
                                        0 <= k < skip_generics.len() && (
                                        #[trigger] skip_generics[k])@ == name;
                                    if k < skipped.len() {
                                        assert(skipped[k] == skip_generics[k]);
                                        assert(aliased(upto, name));
                                        let w = choose|w: int|
                                            0 <= w < upto.len() && spec_verdict(#[trigger] upto[w])
                                                is Disk && upto[w].generic == Some(name);
                                        assert(next[w] == upto[w]);
                                    } else {
                                        assert(next[i as int].generic == Some(name));
                                    }
                                }
                            }
                        }
                    },
                    None => {
                        proof {
                            lemma_aliased_step(upto, next, i as int);
                        }
                    },
                }
            },
            _ => {
                proof {
                    lemma_aliased_step(upto, next, i as int);
                }
            },
        }
        i = i + 1;
    }
    assert(all.subrange(0, i as int) =~= all);
    let ghost blocks = devices.deep_view();
    let mut g: usize = 0;
    assert(found.subrange(0, 0) =~= Seq::<Seq<char>>::empty());
    while g < generics.len()
        invariant
            g <= generics.len(),
            found == generics.deep_view(),
            blocks == block_names(all).map_values(|name: Seq<char>| device_file(name)),
            devices.deep_view() == blocks + generic_names(all, found.subrange(0, g as int)).map_values(
                |name: Seq<char>| device_file(name),
            ),
            forall|name: Seq<char>|
                aliased(all, name) <==> exists|k: int|
                    0 <= k < skip_generics.len() && (#[trigger] skip_generics[k])@ == name,
        decreases generics.len() - g,
    {
        let ghost upto = found.subrange(0, g as int);
        let ghost next = found.subrange(0, g + 1);
        let ghost before = devices.deep_view();
        proof {
            assert(next.drop_last() =~= upto);
            assert(next.last() == generics[g as int]@);
        }
        if !holds(&skip_generics, &generics[g]) {
            devices.push(device_path(generics[g].as_str()));
            proof {
                assert(!aliased(all, generics[g as int]@));
                assert(devices.deep_view() =~= before.push(device_file(generics[g as int]@)));
                assert(generic_names(all, next) == generic_names(all, upto).push(
                    generics[g as int]@,
                ));
                assert(devices.deep_view() =~= blocks + generic_names(all, next).map_values(
                    |name: Seq<char>| device_file(name),
                ));
            }
        } else {
            assert(aliased(all, generics[g as int]@));
        }
        g = g + 1;
    }
    proof {
        assert(found.subrange(0, g as int) =~= found);
        assert(devices.deep_view() =~= spec_list_devices(all, found));
    }
    Ok(devices)
}

/// An entry that is no disk, or has no alias, adds no alias.
proof fn lemma_aliased_step(upto: Seq<BlockEntryView>, next: Seq<BlockEntryView>, i: int)
    requires
        0 <= i,
        next.len() == i + 1,
        upto == next.subrange(0, i),
        !(spec_verdict(next[i]) is Disk) || next[i].generic is None,
    ensures
        forall|name: Seq<char>| aliased(next, name) <==> aliased(upto, name),
{
    assert forall|name: Seq<char>| aliased(next, name) <==> aliased(upto, name) by {
        if aliased(next, name) {
            let w = choose|w: int|
                0 <= w < next.len() && spec_verdict(#[trigger] next[w]) is Disk && next[w].generic
                    == Some(name);
            assert(upto[w] == next[w]);
        }
        if aliased(upto, name) {
            let w = choose|w: int|
                0 <= w < upto.len() && spec_verdict(#[trigger] upto[w]) is Disk && upto[w].generic
                    == Some(name);
            assert(next[w] == upto[w]);
        }
    }
}

/// The names in `block_names` are exactly the names of the disks.
pub proof fn lemma_block_names(entries: Seq<BlockEntryView>, name: Seq<char>)
    ensures
        block_names(entries).contains(name) <==> exists|j: int|
            0 <= j < entries.len() && spec_verdict(#[trigger] entries[j]) is Disk && entries[j].name
                == name,
    decreases entries.len(),
{
    if entries.len() > 0 {
        let init = entries.drop_last();
        let last = entries.last();
        lemma_block_names(init, name);
        if block_names(entries).contains(name) {
            let k = choose|k: int|
                0 <= k < block_names(entries).len() && block_names(entries)[k] == name;
            if spec_verdict(last) is Disk && k == block_names(init).len() {
                assert(entries[entries.len() - 1] == last);
            } else {
                assert(block_names(init)[k] == name);
                let j = choose|j: int|
                    0 <= j < init.len() && spec_verdict(#[trigger] init[j]) is Disk && init[j].name
                        == name;
                assert(entries[j] == init[j]);
            }
        }
        if exists|j: int|
            0 <= j < entries.len() && spec_verdict(#[trigger] entries[j]) is Disk && entries[j].name
                == name {
            let j = choose|j: int|
                0 <= j < entries.len() && spec_verdict(#[trigger] entries[j]) is Disk
                    && entries[j].name == name;
            if j == entries.len() - 1 {
                assert(block_names(entries)[block_names(init).len() as int] == name);
            } else {
                assert(init[j] == entries[j]);
                let k = choose|k: int|
                    0 <= k < block_names(init).len() && block_names(init)[k] == name;
                assert(block_names(entries)[k] == name);
            }
        }
    }
}

/// The names in `generic_names` are exactly the listed generic names that
/// are no alias of a disk.
pub proof fn lemma_generic_names(
    entries: Seq<BlockEntryView>,
    generics: Seq<Seq<char>>,
    name: Seq<char>,
)
    ensures
        generic_names(entries, generics).contains(name) <==> generics.contains(name) && !aliased(
            entries,
            name,
        ),
    decreases generics.len(),
{
    if generics.len() > 0 {
        let init = generics.drop_last();
        let last = generics.last();
        lemma_generic_names(entries, init, name);
        if generic_names(entries, generics).contains(name) {
            let k = choose|k: int|
                0 <= k < generic_names(entries, generics).len() && generic_names(
                    entries,
                    generics,
                )[k] == name;
            if !aliased(entries, last) && k == generic_names(entries, init).len() {
                assert(generics[generics.len() - 1] == name);
            } else {
                assert(generic_names(entries, init)[k] == name);
                let a = choose|a: int| 0 <= a < init.len() && init[a] == name;
                assert(generics[a] == name);
            }
        }
        if generics.contains(name) && !aliased(entries, name) {
            let a = choose|a: int| 0 <= a < generics.len() && generics[a] == name;
            if a == generics.len() - 1 {
                assert(generic_names(entries, generics)[generic_names(entries, init).len() as int]
                    == name);
            } else {
                assert(init[a] == name);
                let k = choose|k: int|
                    0 <= k < generic_names(entries, init).len() && generic_names(entries, init)[k]
                        == name;
                assert(generic_names(entries, generics)[k] == name);
            }
        }
    }
}

/// Every block device that is listed is a disk outside the virtual-device
/// and floppy namespaces: the device files that come first in the list each
/// belong to a block entry whose canonical path is known and lies in neither
/// namespace, and whose descriptor announces a disk.
pub proof fn law_listed_block_devices_are_physical(
    entries: Seq<BlockEntryView>,
    generics: Seq<Seq<char>>,
    k: int,
)
    requires
        0 <= k < block_names(entries).len(),
    ensures
        k < spec_list_devices(entries, generics).len(),
        exists|j: int|
            0 <= j < entries.len() && spec_list_devices(entries, generics)[k] == device_file(
                (#[trigger] entries[j]).name,
            ) && entries[j].path is Some && !under_virtual(entries[j].path->0) && !under_floppy(
                entries[j].path->0,
            ) && entries[j].uevent is Some && announces_disk(entries[j].uevent->0),
{
    let name = block_names(entries)[k];
    lemma_block_names(entries, name);
    let j = choose|j: int|
        0 <= j < entries.len() && spec_verdict(#[trigger] entries[j]) is Disk && entries[j].name
            == name;
    assert(spec_list_devices(entries, generics)[k] == device_file(entries[j].name));
}

/// Whether no name would be listed twice: no two disks among the block
/// entries share a name, no generic SCSI name that is listed stands twice in
/// its listing, and no disk among the block entries bears the name of a
/// generic SCSI entry that is listed.
pub open spec fn names_are_distinct(entries: Seq<BlockEntryView>, generics: Seq<Seq<char>>) -> bool {
    &&& forall|i: int, j: int|
        0 <= i < j < entries.len() && spec_verdict(#[trigger] entries[i]) is Disk && spec_verdict(
            #[trigger] entries[j],
        ) is Disk ==> entries[i].name != entries[j].name
    &&& forall|a: int, b: int|
        0 <= a < b < generics.len() && #[trigger] generics[a] == #[trigger] generics[b] ==> aliased(
            entries,
            generics[a],
        )
    &&& forall|i: int, a: int|
        0 <= i < entries.len() && 0 <= a < generics.len() && spec_verdict(#[trigger] entries[i])
            is Disk && entries[i].name == #[trigger] generics[a] ==> aliased(entries, generics[a])
}

proof fn lemma_block_names_distinct(entries: Seq<BlockEntryView>)
    requires
        forall|i: int, j: int|
            0 <= i < j < entries.len() && spec_verdict(#[trigger] entries[i]) is Disk
                && spec_verdict(#[trigger] entries[j]) is Disk ==> entries[i].name
                != entries[j].name,
    ensures
        block_names(entries).no_duplicates(),
    decreases entries.len(),
{
    if entries.len() > 0 {
        let init = entries.drop_last();
        let last = entries.last();
        assert forall|i: int, j: int|
            0 <= i < j < init.len() && spec_verdict(#[trigger] init[i]) is Disk && spec_verdict(
                #[trigger] init[j],
            ) is Disk implies init[i].name != init[j].name by {
            assert(init[i] == entries[i] && init[j] == entries[j]);
        }
        lemma_block_names_distinct(init);
        if spec_verdict(last) is Disk {
            lemma_block_names(init, last.name);
            if block_names(init).contains(last.name) {
                let j = choose|j: int|
                    0 <= j < init.len() && spec_verdict(#[trigger] init[j]) is Disk && init[j].name
                        == last.name;
                assert(entries[j] == init[j]);
                assert(entries[entries.len() - 1] == last);
            }
            assert forall|x: int, y: int|
                0 <= x < block_names(entries).len() && 0 <= y < block_names(entries).len() && x
                    != y implies block_names(entries)[x] != block_names(entries)[y] by {
                let n = block_names(init).len() as int;
                if x < n && y < n {
                    assert(block_names(init)[x] != block_names(init)[y]);
                } else if x == n {
                    assert(block_names(init)[y] == block_names(entries)[y]);
                } else {
                    assert(block_names(init)[x] == block_names(entries)[x]);
                }
            }
        }
    }
}

proof fn lemma_generic_names_distinct(entries: Seq<BlockEntryView>, generics: Seq<Seq<char>>)
    requires
        forall|a: int, b: int|
            0 <= a < b < generics.len() && #[trigger] generics[a] == #[trigger] generics[b]
                ==> aliased(entries, generics[a]),
    ensures
        generic_names(entries, generics).no_duplicates(),
    decreases generics.len(),
{
    if generics.len() > 0 {
        let init = generics.drop_last();
        let last = generics.last();
        assert forall|a: int, b: int|
            0 <= a < b < init.len() && #[trigger] init[a] == #[trigger] init[b] implies aliased(
            entries,
            init[a],
        ) by {
            assert(init[a] == generics[a] && init[b] == generics[b]);
        }
        lemma_generic_names_distinct(entries, init);
        if !aliased(entries, last) {
            lemma_generic_names(entries, init, last);
            if init.contains(last) {
                let a = choose|a: int| 0 <= a < init.len() && init[a] == last;
                assert(generics[a] == generics[generics.len() - 1]);
            }
            assert forall|x: int, y: int|
                0 <= x < generic_names(entries, generics).len() && 0 <= y < generic_names(
                    entries,
                    generics,
                ).len() && x != y implies generic_names(entries, generics)[x] != generic_names(
                entries,
                generics,
            )[y] by {
                let n = generic_names(entries, init).len() as int;
                if x < n && y < n {
                    assert(generic_names(entries, init)[x] != generic_names(entries, init)[y]);
                } else if x == n {
                    assert(generic_names(entries, init)[y] == generic_names(entries, generics)[y]);
                } else {
                    assert(generic_names(entries, init)[x] == generic_names(entries, generics)[x]);
                }
            }
        }
    }
}

/// Two names with one device file are one name.
pub proof fn lemma_device_file_injective(a: Seq<char>, b: Seq<char>)
    requires
        device_file(a) == device_file(b),
    ensures
        a == b,
{
    let p = "/dev/"@;
    assert(device_file(a).subrange(p.len() as int, device_file(a).len() as int) =~= a);
    assert(device_file(b).subrange(p.len() as int, device_file(b).len() as int) =~= b);
}

/// No device is listed twice, as long as the listings hold no name twice:
/// under `names_are_distinct` the list of device files has no duplicates.
pub proof fn law_no_device_listed_twice(entries: Seq<BlockEntryView>, generics: Seq<Seq<char>>)
    requires
        names_are_distinct(entries, generics),
    ensures
        spec_list_devices(entries, generics).no_duplicates(),
{
    let blocks = block_names(entries);
    let others = generic_names(entries, generics);
    let names = blocks + others;
    let listed = spec_list_devices(entries, generics);
    lemma_block_names_distinct(entries);
    lemma_generic_names_distinct(entries, generics);
    assert forall|x: int, y: int| 0 <= x < names.len() && 0 <= y < names.len() && x != y implies names[x]
        != names[y] by {
        let n = blocks.len() as int;
        if x < n && y >= n {
            lemma_cross(entries, generics, x, y - n);
        } else if y < n && x >= n {
            lemma_cross(entries, generics, y, x - n);
        } else if x < n {
            assert(blocks[x] != blocks[y]);
        } else {
            assert(others[x - n] != others[y - n]);
        }
    }
    assert forall|x: int, y: int|
        0 <= x < listed.len() && 0 <= y < listed.len() && x != y implies listed[x] != listed[y] by {
        if listed[x] == listed[y] {
            lemma_device_file_injective(names[x], names[y]);
        }
    }
}

proof fn lemma_cross(entries: Seq<BlockEntryView>, generics: Seq<Seq<char>>, x: int, y: int)
    requires
        names_are_distinct(entries, generics),
        0 <= x < block_names(entries).len(),
        0 <= y < generic_names(entries, generics).len(),
    ensures
        block_names(entries)[x] != generic_names(entries, generics)[y],
{
    let name = block_names(entries)[x];
    if name == generic_names(entries, generics)[y] {
        lemma_block_names(entries, name);
        lemma_generic_names(entries, generics, name);
        let j = choose|j: int|
            0 <= j < entries.len() && spec_verdict(#[trigger] entries[j]) is Disk && entries[j].name
                == name;
        let a = choose|a: int| 0 <= a < generics.len() && generics[a] == name;
        assert(aliased(entries, generics[a]));
    }
}

/// A disk that is reachable through a block entry and through that entry's
/// generic pass-through alias is listed under the block entry only: the
/// alias of a block entry that is a disk stands nowhere in the part of the
/// list that the generic SCSI entries give.
pub proof fn law_alias_is_not_listed(
    entries: Seq<BlockEntryView>,
    generics: Seq<Seq<char>>,
    i: int,
    k: int,
)
    requires
        0 <= i < entries.len(),
        spec_verdict(entries[i]) is Disk,
        entries[i].generic is Some,
        block_names(entries).len() <= k < spec_list_devices(entries, generics).len(),
    ensures
        spec_list_devices(entries, generics)[k] != device_file(entries[i].generic->0),
{
    let alias = entries[i].generic->0;
    let others = generic_names(entries, generics);
    let at = k - block_names(entries).len();
    assert(spec_list_devices(entries, generics)[k] == device_file(others[at]));
    if device_file(others[at]) == device_file(alias) {
        lemma_device_file_injective(others[at], alias);
        lemma_generic_names(entries, generics, alias);
        assert(others.contains(alias));
        assert(aliased(entries, alias));
    }
}

} // verus!
