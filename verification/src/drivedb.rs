//! The drive database: what is known of families of drives, read from the
//! text of a database file, and the entry that holds for a drive.
//!
//! The file is a list of entries in the notation of C: each entry is a
//! group of five strings in braces, which give the family, a pattern for the
//! model, a pattern for the firmware, a warning, and the presets of the
//! family. Comments and everything else between the strings are passed
//! over.
use crate::info::Id;
use crate::presets::{merge, parse, preset_view, spec_parse, AttributeView, Match, Preset};
use crate::text::{has_prefix, same_text, starts_with};
use std::collections::HashMap;
use vstd::prelude::*;
use vstd::std_specs::iter::IteratorSpec;

verus! {

broadcast use {vstd::string::group_string_axioms, vstd::std_specs::hash::group_hash_axioms};

/// One entry of the drive database.
#[derive(Debug, Clone)]
pub struct Entry {
    pub family: String,
    /// Pattern that the model of a drive of the family matches.
    pub model: String,
    /// Pattern that the firmware matches; empty where any firmware will do.
    pub firmware: String,
    /// Warning to show with a drive of the family; empty where there is none.
    pub warning: String,
    /// The presets of the family, as an option line.
    pub presets: String,
}

/// What an [`Entry`] holds, as plain text.
pub struct EntryView {
    pub family: Seq<char>,
    pub model: Seq<char>,
    pub firmware: Seq<char>,
    pub warning: Seq<char>,
    pub presets: Seq<char>,
}

impl DeepView for Entry {
    type V = EntryView;

    open spec fn deep_view(&self) -> EntryView {
        EntryView {
            family: self.family@,
            model: self.model@,
            firmware: self.firmware@,
            warning: self.warning@,
            presets: self.presets@,
        }
    }
}

impl View for Entry {
    type V = EntryView;

    open spec fn view(&self) -> EntryView {
        self.deep_view()
    }
}

/// What the reader of a database file is in the middle of.
#[derive(Debug, Clone, Copy, PartialEq, Eq)]
pub enum Mode {
    /// Between strings.
    Code,
    /// After a `/` between strings.
    Slash,
    /// In a comment that runs to the end of the line.
    LineComment,
    /// In a comment that runs to `*/`.
    BlockComment,
    /// After a `*` in such a comment.
    BlockStar,
    /// In a string.
    Text,
    /// After a `\` in a string.
    Escape,
}

/// Where the reader of a database file stands: the groups that are closed,
/// the strings of the group that is open, and the string that is being
/// read. Strings that follow one another without a comma are one string.
pub struct Scan {
    pub mode: Mode,
    pub groups: Vec<Vec<String>>,
    pub group: Vec<String>,
    pub current: Option<String>,
}

/// What a [`Scan`] holds, as plain text.
pub struct ScanView {
    pub mode: Mode,
    pub groups: Seq<Seq<Seq<char>>>,
    pub group: Seq<Seq<char>>,
    pub current: Option<Seq<char>>,
}

impl DeepView for Scan {
    type V = ScanView;

    open spec fn deep_view(&self) -> ScanView {
        ScanView {
            mode: self.mode,
            groups: self.groups.deep_view(),
            group: self.group.deep_view(),
            current: self.current.deep_view(),
        }
    }
}

impl View for Scan {
    type V = ScanView;

    open spec fn view(&self) -> ScanView {
        self.deep_view()
    }
}

/// The strings of the open group, with the string that is being read at
/// their end.
pub open spec fn flushed(s: ScanView) -> Seq<Seq<char>> {
    match s.current {
        Some(text) => s.group.push(text),
        None => s.group,
    }
}

/// The string that is being read, with `c` at its end.
pub open spec fn extended(s: ScanView, c: char) -> Option<Seq<char>> {
    match s.current {
        Some(text) => Some(text.push(c)),
        None => Some(seq![c]),
    }
}

/// The reader after a character that stands between strings.
pub open spec fn step_code(s: ScanView, c: char) -> ScanView {
    if c == '/' {
        ScanView { mode: Mode::Slash, ..s }
    } else if c == '{' {
        ScanView { mode: Mode::Code, groups: s.groups, group: Seq::empty(), current: None }
    } else if c == '}' {
        ScanView {
            mode: Mode::Code,
            groups: s.groups.push(flushed(s)),
            group: Seq::empty(),
            current: None,
        }
    } else if c == ',' {
        ScanView { mode: Mode::Code, groups: s.groups, group: flushed(s), current: None }
    } else if c == '"' {
        ScanView {
            mode: Mode::Text,
            groups: s.groups,
            group: s.group,
            current: match s.current {
                Some(text) => Some(text),
                None => Some(Seq::empty()),
            },
        }
    } else {
        ScanView { mode: Mode::Code, ..s }
    }
}

/// The character that an escaped character stands for.
pub open spec fn unescaped(c: char) -> char {
    if c == 'n' {
        '\n'
    } else if c == 't' {
        '\t'
    } else {
        c
    }
}

/// The reader after the character `c`.
pub open spec fn spec_step(s: ScanView, c: char) -> ScanView {
    match s.mode {
        Mode::Code => step_code(s, c),
        Mode::Slash => if c == '/' {
            ScanView { mode: Mode::LineComment, ..s }
        } else if c == '*' {
            ScanView { mode: Mode::BlockComment, ..s }
        } else {
            step_code(s, c)
        },
        Mode::LineComment => if c == '\n' {
            ScanView { mode: Mode::Code, ..s }
        } else {
            s
        },
        Mode::BlockComment => if c == '*' {
            ScanView { mode: Mode::BlockStar, ..s }
        } else {
            s
        },
        Mode::BlockStar => if c == '/' {
            ScanView { mode: Mode::Code, ..s }
        } else if c == '*' {
            s
        } else {
            ScanView { mode: Mode::BlockComment, ..s }
        },
        Mode::Text => if c == '"' {
            ScanView { mode: Mode::Code, ..s }
        } else if c == '\\' {
            ScanView { mode: Mode::Escape, ..s }
        } else {
            ScanView { mode: Mode::Text, current: extended(s, c), ..s }
        },
        Mode::Escape => ScanView { mode: Mode::Text, current: extended(s, unescaped(c)), ..s },
    }
}

/// The reader at the start of a file.
pub open spec fn spec_start() -> ScanView {
    ScanView { mode: Mode::Code, groups: Seq::empty(), group: Seq::empty(), current: None }
}

/// The reader after the characters of `text` from `from` on.
pub open spec fn scan_from(text: Seq<char>, from: int, s: ScanView) -> ScanView
    decreases text.len() - from,
{
    if from < 0 || from >= text.len() {
        s
    } else {
        scan_from(text, from + 1, spec_step(s, text[from]))
    }
}

/// The entry that a group of five strings gives.
pub open spec fn entry_of(group: Seq<Seq<char>>) -> EntryView {
    EntryView {
        family: group[0],
        model: group[1],
        firmware: group[2],
        warning: group[3],
        presets: group[4],
    }
}

/// The entries that the groups give, in order: a group of five strings
/// gives an entry, any other group gives none.
pub open spec fn entries_of(groups: Seq<Seq<Seq<char>>>) -> Seq<EntryView>
    decreases groups.len(),
{
    if groups.len() == 0 {
        Seq::empty()
    } else {
        let before = entries_of(groups.drop_last());
        if groups.last().len() == 5 {
            before.push(entry_of(groups.last()))
        } else {
            before
        }
    }
}

/// The entries of the database file with the text `text`.
pub open spec fn spec_load(text: Seq<char>) -> Seq<EntryView> {
    entries_of(scan_from(text, 0, spec_start()).groups)
}

/// Puts the string that is being read at the end of the open group.
fn flush(group: Vec<String>, current: Option<String>) -> (r: Vec<String>)
    ensures
        r.deep_view() == (match current {
            Some(text) => group.deep_view().push(text@),
            None => group.deep_view(),
        }),
{
    let mut group = group;
    let ghost before = group.deep_view();
    match current {
        Some(text) => {
            group.push(text);
            assert(group.deep_view() =~= before.push(text@));
        },
        None => {},
    }
    group
}

/// Puts `c` at the end of the string that is being read.
fn extend(current: Option<String>, c: char) -> (r: Option<String>)
    ensures
        r.deep_view() == (match current {
            Some(text) => Some(text@.push(c)),
            None => Some(seq![c]),
        }),
{
    let mut text = match current {
        Some(text) => text,
        None => String::new(),
    };
    text.push(c);
    assert(current is None ==> text@ =~= seq![c]);
    Some(text)
}

/// Takes a character that stands between strings.
fn read_code(s: Scan, c: char) -> (r: Scan)
    ensures
        r.deep_view() == step_code(s.deep_view(), c),
{
    let Scan { mode, groups, group, current } = s;
    if c == '/' {
        Scan { mode: Mode::Slash, groups, group, current }
    } else if c == '{' {
        let r = Scan { mode: Mode::Code, groups, group: Vec::new(), current: None };
        assert(r.group.deep_view() =~= Seq::<Seq<char>>::empty());
        r
    } else if c == '}' {
        let mut groups = groups;
        let ghost before = groups.deep_view();
        let closed = flush(group, current);
        groups.push(closed);
        assert(groups.deep_view() =~= before.push(closed.deep_view()));
        let r = Scan { mode: Mode::Code, groups, group: Vec::new(), current: None };
        assert(r.group.deep_view() =~= Seq::<Seq<char>>::empty());
        r
    } else if c == ',' {
        Scan { mode: Mode::Code, groups, group: flush(group, current), current: None }
    } else if c == '"' {
        let current = match current {
            Some(text) => Some(text),
            None => Some(String::new()),
        };
        Scan { mode: Mode::Text, groups, group, current }
    } else {
        Scan { mode: Mode::Code, groups, group, current }
    }
}

/// Takes the next character of the file.
pub fn step(s: Scan, c: char) -> (r: Scan)
    ensures
        r.deep_view() == spec_step(s.deep_view(), c),
{
    match s.mode {
        Mode::Code => read_code(s, c),
        Mode::Slash => {
            if c == '/' {
                Scan { mode: Mode::LineComment, ..s }
            } else if c == '*' {
                Scan { mode: Mode::BlockComment, ..s }
            } else {
                read_code(s, c)
            }
        },
        Mode::LineComment => {
            if c == '\n' {
                Scan { mode: Mode::Code, ..s }
            } else {
                s
            }
        },
        Mode::BlockComment => {
            if c == '*' {
                Scan { mode: Mode::BlockStar, ..s }
            } else {
                s
            }
        },
        Mode::BlockStar => {
            if c == '/' {
                Scan { mode: Mode::Code, ..s }
            } else if c == '*' {
                s
            } else {
                Scan { mode: Mode::BlockComment, ..s }
            }
        },
        Mode::Text => {
            if c == '"' {
                Scan { mode: Mode::Code, ..s }
            } else if c == '\\' {
                Scan { mode: Mode::Escape, ..s }
            } else {
                let Scan { mode, groups, group, current } = s;
                Scan { mode: Mode::Text, groups, group, current: extend(current, c) }
            }
        },
        Mode::Escape => {
            let Scan { mode, groups, group, current } = s;
            let c = if c == 'n' {
                '\n'
            } else if c == 't' {
                '\t'
            } else {
                c
            };
            Scan { mode: Mode::Text, groups, group, current: extend(current, c) }
        },
    }
}

/// Gives the entries that the groups hold.
fn entries(groups: Vec<Vec<String>>) -> (r: Vec<Entry>)
    ensures
        r.deep_view() == entries_of(groups.deep_view()),
{
    let ghost all = groups.deep_view();
    let mut out: Vec<Entry> = Vec::new();
    let mut i: usize = 0;
    assert(all.subrange(0, 0) =~= Seq::<Seq<Seq<char>>>::empty());
    assert(out.deep_view() =~= Seq::<EntryView>::empty());
    while i < groups.len()
        invariant
            i <= groups.len(),
            all == groups.deep_view(),
            out.deep_view() == entries_of(all.subrange(0, i as int)),
        decreases groups.len() - i,
    {
        let ghost before = out.deep_view();
        let ghost next = all.subrange(0, i + 1);
        proof {
            assert(next.drop_last() =~= all.subrange(0, i as int));
            assert(next.last() == groups[i as int].deep_view());
        }
        let group = &groups[i];
        if group.len() == 5 {
            let entry = Entry {
                family: group[0].clone(),
                model: group[1].clone(),
                firmware: group[2].clone(),
                warning: group[3].clone(),
                presets: group[4].clone(),
            };
            proof {
                let g = groups[i as int].deep_view();
                assert(g[0] == group[0]@ && g[1] == group[1]@ && g[2] == group[2]@ && g[3]
                    == group[3]@ && g[4] == group[4]@);
            }
            out.push(entry);
            assert(out.deep_view() =~= before.push(entry.deep_view()));
        }
        i = i + 1;
    }
    assert(all.subrange(0, i as int) =~= all);
    out
}

/// Reads the entries of a database file from its text.
///
/// A group of strings in braces that holds five strings is an entry; any
/// other group is passed over, and so is a group that the text does not
/// close.
pub fn load(text: &str) -> (r: Vec<Entry>)
    ensures
        r.deep_view() == spec_load(text@),
{
    let mut state = Scan { mode: Mode::Code, groups: Vec::new(), group: Vec::new(), current: None };
    assert(state.deep_view().groups =~= Seq::<Seq<Seq<char>>>::empty());
    assert(state.deep_view().group =~= Seq::<Seq<char>>::empty());
    let mut rest = text.chars();
    let ghost mut seen: Seq<char> = Seq::empty();
    loop
        invariant
            rest.obeys_prophetic_iter_laws(),
            rest.decrease() is Some,
            seen + rest.remaining() == text@,
            scan_from(text@, 0, spec_start()) == scan_from(
                text@,
                seen.len() as int,
                state.deep_view(),
            ),
        decreases rest.decrease()->0,
    {
        let ghost before = rest.remaining();
        match rest.next() {
            None => {
                assert(text@ =~= seen);
                return entries(state.groups);
            },
            Some(c) => {
                proof {
                    assert(text@[seen.len() as int] == c);
                    assert(seen.push(c) + rest.remaining() =~= seen + before);
                    seen = seen.push(c);
                }
                state = step(state, c);
            },
        }
    }
}

/// Whether the pattern `pattern` is found in `text`: `Some` of the answer
/// of the crate `regex`, `None` where it does not take `pattern` for a
/// pattern.
pub uninterp spec fn regex_found(pattern: Seq<char>, text: Seq<char>) -> Option<bool>;

/// `Regex::new` followed by `Regex::is_match`, of the crate `regex`: the
/// pattern is compiled and looked for in the text. The answer is that of
/// `is_match`, and there is none where `new` refuses the pattern.
#[verifier::external_body]
fn regex_search(pattern: &str, text: &str) -> (r: Option<bool>)
    ensures
        r == regex_found(pattern@, text@),
{
    match regex::Regex::new(pattern) {
        Ok(re) => Some(re.is_match(text)),
        Err(_) => None,
    }
}

/// The pattern that is found only where `pattern` takes up the whole text.
pub open spec fn spec_anchored(pattern: Seq<char>) -> Seq<char> {
    "^(?:"@ + pattern + ")$"@
}

/// Gives the pattern that is found only where `pattern` takes up the whole
/// text.
pub fn anchored(pattern: &str) -> (r: String)
    ensures
        r@ == spec_anchored(pattern@),
{
    let mut whole = String::from_str("^(?:");
    whole.append(pattern);
    whole.append(")$");
    whole
}

/// Whether an entry holds for a drive, given what the search for its model
/// pattern and for its firmware pattern found. The entry of the presets
/// that hold for every drive, and the entries for drives behind a bridge,
/// hold for no drive of their own. The model pattern must be found; the
/// firmware pattern must be found unless it is empty.
pub open spec fn spec_applies(
    entry: EntryView,
    model_found: Option<bool>,
    firmware_found: Option<bool>,
) -> bool {
    &&& entry.family != "DEFAULT"@
    &&& !has_prefix(entry.family, "USB:"@)
    &&& model_found == Some(true)
    &&& entry.firmware.len() == 0 || firmware_found == Some(true)
}

/// Tells whether an entry holds for a drive, given what the search for its
/// model pattern and for its firmware pattern found.
pub fn applies(entry: &Entry, model_found: Option<bool>, firmware_found: Option<bool>) -> (r: bool)
    ensures
        r == spec_applies(entry.deep_view(), model_found, firmware_found),
{
    if same_text(entry.family.as_str(), "DEFAULT") || starts_with(entry.family.as_str(), "USB:") {
        return false;
    }
    let model_ok = match model_found {
        Some(found) => found,
        None => false,
    };
    let firmware_ok = entry.firmware.as_str().unicode_len() == 0 || match firmware_found {
        Some(found) => found,
        None => false,
    };
    model_ok && firmware_ok
}

/// Whether an entry holds for the drive with the given model and firmware.
pub open spec fn holds_for(entry: EntryView, model: Seq<char>, firmware: Seq<char>) -> bool {
    spec_applies(
        entry,
        regex_found(spec_anchored(entry.model), model),
        regex_found(spec_anchored(entry.firmware), firmware),
    )
}

/// Tells whether an entry holds for the drive with the given model and
/// firmware.
pub fn entry_holds_for(entry: &Entry, model: &str, firmware: &str) -> (r: bool)
    ensures
        r == holds_for(entry.deep_view(), model@, firmware@),
{
    let model_found = regex_search(anchored(entry.model.as_str()).as_str(), model);
    let firmware_found = regex_search(anchored(entry.firmware.as_str()).as_str(), firmware);
    applies(entry, model_found, firmware_found)
}

/// The position of the first entry from `from` on that holds for the drive.
pub open spec fn found_from(
    entries: Seq<EntryView>,
    from: int,
    model: Seq<char>,
    firmware: Seq<char>,
) -> Option<int>
    decreases entries.len() - from,
{
    if from < 0 || from >= entries.len() {
        None
    } else if holds_for(entries[from], model, firmware) {
        Some(from)
    } else {
        found_from(entries, from + 1, model, firmware)
    }
}

/// The position of the first entry from `from` on that gives the presets
/// that hold for every drive.
pub open spec fn default_from(entries: Seq<EntryView>, from: int) -> Option<int>
    decreases entries.len() - from,
{
    if from < 0 || from >= entries.len() {
        None
    } else if entries[from].family == "DEFAULT"@ {
        Some(from)
    } else {
        default_from(entries, from + 1)
    }
}

/// The presets of the entry at `at`; none where there is no such entry or
/// its presets are no option line.
pub open spec fn presets_at(entries: Seq<EntryView>, at: Option<int>) -> Map<u8, AttributeView> {
    match at {
        Some(i) => match spec_parse(entries[i].presets) {
            Some(table) => table,
            None => Map::empty(),
        },
        None => Map::empty(),
    }
}

/// The presets that hold for a drive: those that hold for every drive,
/// under those of the drive's own entry, under the user's own.
pub open spec fn spec_match_presets(
    entries: Seq<EntryView>,
    model: Seq<char>,
    firmware: Seq<char>,
    overrides: Map<u8, AttributeView>,
) -> Map<u8, AttributeView> {
    presets_at(entries, default_from(entries, 0)).union_prefer_right(
        presets_at(entries, found_from(entries, 0, model, firmware)),
    ).union_prefer_right(overrides)
}

/// The family of a drive: that of the first entry that holds for it.
pub open spec fn spec_match_family(
    entries: Seq<EntryView>,
    model: Seq<char>,
    firmware: Seq<char>,
) -> Option<Seq<char>> {
    match found_from(entries, 0, model, firmware) {
        Some(i) => Some(entries[i].family),
        None => None,
    }
}

/// The warning to show with a drive: that of the first entry that holds for
/// it, if it is not empty.
pub open spec fn spec_match_warning(
    entries: Seq<EntryView>,
    model: Seq<char>,
    firmware: Seq<char>,
) -> Option<Seq<char>> {
    match found_from(entries, 0, model, firmware) {
        Some(i) => if entries[i].warning.len() == 0 {
            None
        } else {
            Some(entries[i].warning)
        },
        None => None,
    }
}

/// Finds the first entry that holds for the drive.
fn find(entries: &Vec<Entry>, model: &str, firmware: &str) -> (r: Option<usize>)
    ensures
        match r {
            Some(i) => found_from(entries.deep_view(), 0, model@, firmware@) == Some(i as int) && i
                < entries.len(),
            None => found_from(entries.deep_view(), 0, model@, firmware@) is None,
        },
{
    let ghost all = entries.deep_view();
    let mut i: usize = 0;
    while i < entries.len()
        invariant
            i <= entries.len(),
            all == entries.deep_view(),
            found_from(all, 0, model@, firmware@) == found_from(all, i as int, model@, firmware@),
        decreases entries.len() - i,
    {
        assert(all[i as int] == entries[i as int].deep_view());
        if entry_holds_for(&entries[i], model, firmware) {
            return Some(i);
        }
        i = i + 1;
    }
    None
}

/// Finds the first entry that gives the presets that hold for every drive.
fn find_default(entries: &Vec<Entry>) -> (r: Option<usize>)
    ensures
        match r {
            Some(i) => default_from(entries.deep_view(), 0) == Some(i as int) && i < entries.len(),
            None => default_from(entries.deep_view(), 0) is None,
        },
{
    let ghost all = entries.deep_view();
    let mut i: usize = 0;
    while i < entries.len()
        invariant
            i <= entries.len(),
            all == entries.deep_view(),
            default_from(all, 0) == default_from(all, i as int),
        decreases entries.len() - i,
    {
        assert(all[i as int] == entries[i as int].deep_view());
        if same_text(entries[i].family.as_str(), "DEFAULT") {
            return Some(i);
        }
        i = i + 1;
    }
    None
}

/// Gives the presets of the entry at `at`.
fn presets_of(entries: &Vec<Entry>, at: Option<usize>) -> (r: Preset)
    requires
        at matches Some(i) ==> i < entries.len(),
    ensures
        preset_view(r@) == presets_at(
            entries.deep_view(),
            match at {
                Some(i) => Some(i as int),
                None => None,
            },
        ),
{
    let found = match at {
        Some(i) => {
            assert(entries.deep_view()[i as int] == entries[i as int].deep_view());
            parse(&entries[i].presets)
        },
        None => None,
    };
    match found {
        Some(table) => table,
        None => {
            let empty: HashMap<u8, crate::presets::Attribute> = HashMap::new();
            assert(preset_view(empty@) =~= Map::<u8, AttributeView>::empty());
            empty
        },
    }
}

/// Finds what the database says of a drive, and lays the user's presets
/// over it.
///
/// The first entry that holds for the model and the firmware of the drive
/// gives the family, the warning, and presets of its own. Under these lie
/// the presets that hold for every drive, and over them the user's.
pub fn match_entry(id: &Id, entries: &Vec<Entry>, overrides: Preset) -> (r: Match)
    ensures
        r.family.deep_view() == spec_match_family(entries.deep_view(), id.model@, id.firmware@),
        r.warning.deep_view() == spec_match_warning(entries.deep_view(), id.model@, id.firmware@),
        preset_view(r.presets@) == spec_match_presets(
            entries.deep_view(),
            id.model@,
            id.firmware@,
            preset_view(overrides@),
        ),
{
    let found = find(entries, id.model.as_str(), id.firmware.as_str());
    let default = find_default(entries);
    let database = merge(presets_of(entries, default), presets_of(entries, found));
    let presets = merge(database, overrides);
    match found {
        Some(i) => {
            assert(entries.deep_view()[i as int] == entries[i as int].deep_view());
            let entry = &entries[i];
            Match {
                family: Some(entry.family.clone()),
                warning: if entry.warning.as_str().unicode_len() == 0 {
                    None
                } else {
                    Some(entry.warning.clone())
                },
                presets: presets,
            }
        },
        None => Match { family: None, warning: None, presets: presets },
    }
}

} // verus!
