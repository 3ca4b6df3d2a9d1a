//! Attribute presets: how a vendor's raw attribute bytes are put together and
//! labelled.
//!
//! One preset is written `ID,FORMAT[:BYTEORDER][,NAME[,(HDD|SSD)]]`. An option
//! line is a sequence of whitespace-separated `option value` pairs; each `-v`
//! option carries one preset.
use crate::text::{same_text, split_whitespace, words};
use std::collections::HashMap;
use vstd::prelude::*;
use vstd::slice::slice_subrange;
use vstd::utf8::{decode_utf8, encode_utf8, valid_utf8};

verus! {

broadcast use {vstd::string::group_string_axioms, vstd::std_specs::hash::group_hash_axioms};

/// The class of drive that a preset applies to.
#[derive(Debug, Clone, Copy, PartialEq, Eq)]
pub enum Type {
    HDD,
    SSD,
}

/// How one attribute is decoded and labelled.
#[derive(Debug, Clone)]
pub struct Attribute {
    /// Label shown for the attribute.
    pub name: Option<String>,
    /// Tag naming the scheme by which the raw value is rebuilt.
    pub format: String,
    /// Order in which the raw bytes are taken.
    pub byte_order: String,
    /// Class of drive the preset is meant for.
    pub drivetype: Option<Type>,
}

/// Presets by attribute identifier.
pub type Preset = HashMap<u8, Attribute>;

/// What an [`Attribute`] holds, as plain text.
pub struct AttributeView {
    pub name: Option<Seq<char>>,
    pub format: Seq<char>,
    pub byte_order: Seq<char>,
    pub drivetype: Option<Type>,
}

impl View for Attribute {
    type V = AttributeView;

    open spec fn view(&self) -> AttributeView {
        AttributeView {
            name: match self.name {
                Some(n) => Some(n@),
                None => None,
            },
            format: self.format@,
            byte_order: self.byte_order@,
            drivetype: self.drivetype,
        }
    }
}

/// The byte `,`.
pub const COMMA: u8 = 0x2c;

/// The byte `:`.
pub const COLON: u8 = 0x3a;

/// Whether `b` is an ASCII decimal digit.
pub open spec fn is_digit(b: u8) -> bool {
    0x30 <= b <= 0x39
}

/// Whether `b` closes a field: a comma always does, a colon where
/// `colon_ends` is set.
pub open spec fn ends_field(b: u8, colon_ends: bool) -> bool {
    b == COMMA || (colon_ends && b == COLON)
}

/// Number of decimal digits of `s` from `from` on.
pub open spec fn digits_len(s: Seq<u8>, from: int) -> nat
    decreases s.len() - from,
{
    if 0 <= from < s.len() && is_digit(s[from]) {
        1 + digits_len(s, from + 1)
    } else {
        0
    }
}

/// Number of bytes of `s` from `from` up to the byte that closes the field,
/// or to the end of `s`.
pub open spec fn field_len(s: Seq<u8>, from: int, colon_ends: bool) -> nat
    decreases s.len() - from,
{
    if 0 <= from < s.len() && !ends_field(s[from], colon_ends) {
        1 + field_len(s, from + 1, colon_ends)
    } else {
        0
    }
}

/// The number that the decimal digits `s` write, most significant first.
pub open spec fn decimal_value(s: Seq<u8>) -> nat
    decreases s.len(),
{
    if s.len() == 0 {
        0
    } else {
        10 * decimal_value(s.drop_last()) + (s.last() - 0x30) as nat
    }
}

/// Whether `s` holds the byte `b` at position `at`.
pub open spec fn byte_at(s: Seq<u8>, at: int, b: u8) -> bool {
    0 <= at < s.len() && s[at] == b
}

/// The text field of `s` that starts at `from`: its characters and the
/// position after it. A field is at least one byte long and is well-formed
/// UTF-8.
pub open spec fn text_field(s: Seq<u8>, from: int, colon_ends: bool) -> Option<(Seq<char>, int)> {
    let end = from + field_len(s, from, colon_ends);
    let raw = s.subrange(from, end);
    if end > from && valid_utf8(raw) {
        Some((decode_utf8(raw), end))
    } else {
        None
    }
}

/// The drive class written at `at` as `,HDD` or `,SSD`.
pub open spec fn drive_class(s: Seq<u8>, at: int) -> Option<Type> {
    if byte_at(s, at, COMMA) && at + 4 <= s.len() {
        let word = s.subrange(at + 1, at + 4);
        if word == seq![0x48u8, 0x44u8, 0x44u8] {
            Some(Type::HDD)
        } else if word == seq![0x53u8, 0x53u8, 0x44u8] {
            Some(Type::SSD)
        } else {
            None
        }
    } else {
        None
    }
}

/// The byte order that a format stands for when none is written.
pub open spec fn default_byte_order(format: Seq<char>) -> Seq<char> {
    if format == "raw64"@ || format == "hex64"@ {
        "543210wv"@
    } else if format == "raw56"@ || format == "hex56"@ || format == "raw24/raw32"@ || format
        == "msec24hour32"@ {
        "r543210"@
    } else {
        "543210"@
    }
}

/// The preset that the bytes `s` write, with its identifier; `None` where
/// `s` is not a preset from its first byte to its last.
pub open spec fn spec_vendor_attribute(s: Seq<u8>) -> Option<(u8, AttributeView)> {
    let d = digits_len(s, 0) as int;
    let id = decimal_value(s.subrange(0, d));
    if d == 0 || id > 255 || !byte_at(s, d, COMMA) {
        None
    } else {
        match text_field(s, d + 1, true) {
            None => None,
            Some((format, p)) => {
                let order = if byte_at(s, p, COLON) {
                    text_field(s, p + 1, false)
                } else {
                    None
                };
                let q = match order {
                    Some((_, e)) => e,
                    None => p,
                };
                let name = if byte_at(s, q, COMMA) {
                    text_field(s, q + 1, false)
                } else {
                    None
                };
                let r = match name {
                    Some((_, e)) => e,
                    None => q,
                };
                let class = if name is Some {
                    drive_class(s, r)
                } else {
                    None
                };
                let end = if class is Some {
                    r + 4
                } else {
                    r
                };
                if end != s.len() {
                    None
                } else {
                    Some(
                        (
                            id as u8,
                            AttributeView {
                                name: match name {
                                    Some((n, _)) => Some(n),
                                    None => None,
                                },
                                format: format,
                                byte_order: match order {
                                    Some((o, _)) => o,
                                    None => default_byte_order(format),
                                },
                                drivetype: class,
                            },
                        ),
                    )
                }
            },
        }
    }
}

/// Tells whether `c` is a comma, the byte that closes a byte order or a name.
pub fn not_comma(c: u8) -> (r: bool)
    ensures
        r == ends_field(c, false),
{
    c == COMMA
}

/// Tells whether `c` is a comma or a colon, the bytes that close a format.
pub fn not_comma_nor_colon(c: u8) -> (r: bool)
    ensures
        r == ends_field(c, true),
{
    c == COMMA || c == COLON
}

/// Tells whether `c` closes a field.
fn closes_field(c: u8, colon_ends: bool) -> (r: bool)
    ensures
        r == ends_field(c, colon_ends),
{
    if colon_ends {
        not_comma_nor_colon(c)
    } else {
        not_comma(c)
    }
}

/// A run of digits closed by another byte or by the end has the length of
/// the run.
proof fn lemma_digits_len(s: Seq<u8>, from: int, end: int)
    requires
        0 <= from <= end <= s.len(),
        forall|j: int| from <= j < end ==> is_digit(s[j]),
        end == s.len() || !is_digit(s[end]),
    ensures
        digits_len(s, from) == end - from,
    decreases end - from,
{
    if from < end {
        lemma_digits_len(s, from + 1, end);
    }
}

/// A run of field bytes closed by a closing byte or by the end has the
/// length of the run.
proof fn lemma_field_len(s: Seq<u8>, from: int, end: int, colon_ends: bool)
    requires
        0 <= from <= end <= s.len(),
        forall|j: int| from <= j < end ==> !ends_field(s[j], colon_ends),
        end == s.len() || ends_field(s[end], colon_ends),
    ensures
        field_len(s, from, colon_ends) == end - from,
    decreases end - from,
{
    if from < end {
        lemma_field_len(s, from + 1, end, colon_ends);
    }
}

/// More digits never write a smaller number.
proof fn lemma_decimal_value_grows(s: Seq<u8>, k: int, n: int)
    requires
        0 <= k <= n <= s.len(),
    ensures
        decimal_value(s.subrange(0, k)) <= decimal_value(s.subrange(0, n)),
    decreases n - k,
{
    if k < n {
        lemma_decimal_value_grows(s, k, n - 1);
        assert(s.subrange(0, n).drop_last() =~= s.subrange(0, n - 1));
    }
}

/// Finds the end of the digits that start at `from`.
fn scan_digits(input: &[u8], from: usize) -> (end: usize)
    requires
        from <= input@.len(),
    ensures
        end == from + digits_len(input@, from as int),
        end <= input@.len(),
{
    let mut end = from;
    while end < input.len() && input[end] >= 0x30 && input[end] <= 0x39
        invariant
            from <= end <= input@.len(),
            forall|j: int| from <= j < end ==> is_digit(input@[j]),
        decreases input@.len() - end,
    {
        end = end + 1;
    }
    proof {
        lemma_digits_len(input@, from as int, end as int);
    }
    end
}

/// Finds the end of the field that starts at `from`.
fn scan_field(input: &[u8], from: usize, colon_ends: bool) -> (end: usize)
    requires
        from <= input@.len(),
    ensures
        end == from + field_len(input@, from as int, colon_ends),
        end <= input@.len(),
{
    let mut end = from;
    while end < input.len() && !closes_field(input[end], colon_ends)
        invariant
            from <= end <= input@.len(),
            forall|j: int| from <= j < end ==> !ends_field(input@[j], colon_ends),
        decreases input@.len() - end,
    {
        end = end + 1;
    }
    proof {
        lemma_field_len(input@, from as int, end as int, colon_ends);
    }
    end
}

/// Reads the number that the digits `input[..end]` write, if it fits a byte.
fn read_id(input: &[u8], end: usize) -> (r: Option<u8>)
    requires
        end <= input@.len(),
        forall|j: int| 0 <= j < end ==> is_digit(input@[j]),
    ensures
        r is Some <==> decimal_value(input@.subrange(0, end as int)) <= 255,
        r matches Some(v) ==> v == decimal_value(input@.subrange(0, end as int)),
{
    let mut value: u16 = 0;
    let mut i: usize = 0;
    while i < end
        invariant
            i <= end <= input@.len(),
            forall|j: int| 0 <= j < end ==> is_digit(input@[j]),
            value == decimal_value(input@.subrange(0, i as int)),
            value <= 255,
        decreases end - i,
    {
        let digit: u16 = (input[i] - 0x30) as u16;
        proof {
            assert(input@.subrange(0, i + 1).drop_last() =~= input@.subrange(0, i as int));
            assert(input@.subrange(0, i + 1).last() == input@[i as int]);
        }
        value = value * 10 + digit;
        i = i + 1;
        if value > 255 {
            proof {
                lemma_decimal_value_grows(input@, i as int, end as int);
            }
            return None;
        }
    }
    Some(value as u8)
}

/// Reads the text field that starts at `from`.
fn read_text<'a>(input: &'a [u8], from: usize, colon_ends: bool) -> (r: Option<(&'a str, usize)>)
    requires
        from <= input@.len(),
    ensures
        r is Some <==> text_field(input@, from as int, colon_ends) is Some,
        r matches Some((t, e)) ==> text_field(input@, from as int, colon_ends) == Some(
            (t@, e as int),
        ) && from < e <= input@.len(),
{
    let end = scan_field(input, from, colon_ends);
    if end == from {
        return None;
    }
    match core::str::from_utf8(slice_subrange(input, from, end)) {
        Ok(t) => Some((t, end)),
        Err(_) => None,
    }
}

/// Reads the drive class written at `at`.
fn read_class(input: &[u8], at: usize) -> (r: Option<Type>)
    requires
        at <= input@.len(),
    ensures
        r == drive_class(input@, at as int),
{
    if input.len() - at < 4 || input[at] != COMMA {
        return None;
    }
    let ghost word = input@.subrange(at + 1, at + 4);
    assert(word.len() == 3 && word[0] == input@[at + 1] && word[1] == input@[at + 2] && word[2]
        == input@[at + 3]);
    let ghost hdd = seq![0x48u8, 0x44u8, 0x44u8];
    let ghost ssd = seq![0x53u8, 0x53u8, 0x44u8];
    assert(hdd[0] == 0x48u8 && hdd[1] == 0x44u8 && hdd[2] == 0x44u8);
    assert(ssd[0] == 0x53u8 && ssd[1] == 0x53u8 && ssd[2] == 0x44u8);
    if input[at + 1] == 0x48 && input[at + 2] == 0x44 && input[at + 3] == 0x44 {
        assert(word =~= hdd);
        Some(Type::HDD)
    } else if input[at + 1] == 0x53 && input[at + 2] == 0x53 && input[at + 3] == 0x44 {
        assert(word =~= ssd);
        Some(Type::SSD)
    } else {
        None
    }
}

/// The byte order that `format` stands for when none is written.
pub fn default_order(format: &str) -> (r: &'static str)
    ensures
        r@ == default_byte_order(format@),
{
    if same_text(format, "raw64") || same_text(format, "hex64") {
        "543210wv"
    } else if same_text(format, "raw56") || same_text(format, "hex56") || same_text(
        format,
        "raw24/raw32",
    ) || same_text(format, "msec24hour32") {
        "r543210"
    } else {
        "543210"
    }
}

/// Parses one preset, written `ID,FORMAT[:BYTEORDER][,NAME[,(HDD|SSD)]]`.
///
/// The identifier is a decimal number that fits a byte. The format runs to
/// the next comma or colon, the byte order and the name to the next comma;
/// each is at least one byte long and well-formed UTF-8. Without a byte
/// order the format decides it. The input is a preset only if nothing
/// follows its last field.
pub fn parse_vendor_attribute(input: &[u8]) -> (r: Option<(u8, Attribute)>)
    ensures
        r is Some <==> spec_vendor_attribute(input@) is Some,
        r matches Some((id, attr)) ==> spec_vendor_attribute(input@) == Some((id, attr@)),
{
    let d = scan_digits(input, 0);
    if d == 0 {
        return None;
    }
    proof {
        lemma_digits_are_digits(input@, 0);
    }
    let id = match read_id(input, d) {
        Some(id) => id,
        None => {
            return None;
        },
    };
    if d >= input.len() || input[d] != COMMA {
        return None;
    }
    let (format, p) = match read_text(input, d + 1, true) {
        Some(found) => found,
        None => {
            return None;
        },
    };
    let mut q = p;
    let mut order: Option<&str> = None;
    if p < input.len() && input[p] == COLON {
        match read_text(input, p + 1, false) {
            Some((o, e)) => {
                order = Some(o);
                q = e;
            },
            None => {},
        }
    }
    let mut r = q;
    let mut name: Option<String> = None;
    let mut class: Option<Type> = None;
    if q < input.len() && input[q] == COMMA {
        match read_text(input, q + 1, false) {
            Some((n, e)) => {
                name = Some(n.to_owned());
                r = e;
                class = read_class(input, e);
            },
            None => {},
        }
    }
    let end = if class.is_some() {
        r + 4
    } else {
        r
    };
    if end != input.len() {
        return None;
    }
    let byte_order = match order {
        Some(o) => o,
        None => default_order(format),
    };
    Some(
        (
            id,
            Attribute {
                name: name,
                format: format.to_owned(),
                byte_order: byte_order.to_owned(),
                drivetype: class,
            },
        ),
    )
}

/// The bytes counted by `digits_len` are digits.
proof fn lemma_digits_are_digits(s: Seq<u8>, from: int)
    requires
        0 <= from,
    ensures
        forall|j: int| from <= j < from + digits_len(s, from) ==> is_digit(s[j]),
    decreases s.len() - from,
{
    if from < s.len() && is_digit(s[from]) {
        lemma_digits_are_digits(s, from + 1);
    }
}

/// The table that the `option value` pairs `toks` build: each `-v` whose
/// value is a preset sets the entry of its identifier, a later one replacing
/// an earlier one; every other pair leaves the table as it is.
pub open spec fn spec_presets(toks: Seq<Seq<char>>) -> Map<u8, AttributeView>
    decreases toks.len(),
{
    if toks.len() < 2 {
        Map::empty()
    } else {
        let before = spec_presets(toks.subrange(0, toks.len() - 2));
        let option = toks[toks.len() - 2];
        let value = toks[toks.len() - 1];
        if option == "-v"@ {
            match spec_vendor_attribute(encode_utf8(value)) {
                Some((id, attr)) => before.insert(id, attr),
                None => before,
            }
        } else {
            before
        }
    }
}

/// The table that an option line builds; `None` where its last option has no
/// value.
pub open spec fn spec_parse(line: Seq<char>) -> Option<Map<u8, AttributeView>> {
    if words(line).len() % 2 == 0 {
        Some(spec_presets(words(line)))
    } else {
        None
    }
}

/// What a table of presets holds, as plain text.
pub open spec fn preset_view(table: Map<u8, Attribute>) -> Map<u8, AttributeView> {
    table.map_values(|a: Attribute| a@)
}

/// Builds the table of presets that an option line asks for.
///
/// The line is read as whitespace-separated `option value` pairs. A `-v`
/// option whose value is a preset sets the entry of that identifier; a value
/// that is no preset, and any other option, is passed over. A line whose
/// last option has no value gives no table at all.
pub fn parse(line: &String) -> (r: Option<Preset>)
    ensures
        r is Some <==> spec_parse(line@) is Some,
        r matches Some(table) ==> Some(preset_view(table@)) == spec_parse(line@),
{
    let toks = split_whitespace(line.as_str());
    if toks.len() % 2 != 0 {
        return None;
    }
    let mut output: HashMap<u8, Attribute> = HashMap::new();
    let mut i: usize = 0;
    assert(preset_view(output@) =~= Map::<u8, AttributeView>::empty());
    while i < toks.len()
        invariant
            i % 2 == 0,
            i <= toks.len(),
            toks.len() % 2 == 0,
            toks.deep_view() == words(line@),
            preset_view(output@) == spec_presets(toks.deep_view().subrange(0, i as int)),
        decreases toks.len() - i,
    {
        let ghost before = output@;
        let ghost upto = toks.deep_view().subrange(0, i + 2);
        proof {
            assert(upto.subrange(0, upto.len() - 2) =~= toks.deep_view().subrange(0, i as int));
            assert(upto[upto.len() - 2] == toks[i as int]@);
            assert(upto[upto.len() - 1] == toks[i + 1]@);
        }
        if same_text(toks[i].as_str(), "-v") {
            match parse_vendor_attribute(toks[i + 1].as_str().as_bytes()) {
                Some((id, attr)) => {
                    output.insert(id, attr);
                    assert(preset_view(output@) =~= preset_view(before).insert(id, attr@));
                },
                None => {},
            }
        }
        i = i + 2;
    }
    assert(toks.deep_view().subrange(0, i as int) =~= toks.deep_view());
    Some(output)
}

/// The table that a list of presets builds, taken in order: each value that
/// is a preset sets the entry of its identifier, a later one replacing an
/// earlier one; a value that is no preset leaves the table as it is.
pub open spec fn spec_collect(values: Seq<Seq<char>>) -> Map<u8, AttributeView>
    decreases values.len(),
{
    if values.len() == 0 {
        Map::empty()
    } else {
        let before = spec_collect(values.drop_last());
        match spec_vendor_attribute(encode_utf8(values.last())) {
            Some((id, attr)) => before.insert(id, attr),
            None => before,
        }
    }
}

/// Builds the table of the presets that the user gave one by one. A value
/// that is no preset is passed over.
pub fn collect(values: &Vec<String>) -> (r: Preset)
    ensures
        preset_view(r@) == spec_collect(values.deep_view()),
{
    let ghost all = values.deep_view();
    let mut output: HashMap<u8, Attribute> = HashMap::new();
    let mut i: usize = 0;
    assert(preset_view(output@) =~= Map::<u8, AttributeView>::empty());
    assert(all.subrange(0, 0) =~= Seq::<Seq<char>>::empty());
    while i < values.len()
        invariant
            i <= values.len(),
            all == values.deep_view(),
            preset_view(output@) == spec_collect(all.subrange(0, i as int)),
        decreases values.len() - i,
    {
        let ghost before = output@;
        let ghost next = all.subrange(0, i + 1);
        proof {
            assert(next.drop_last() =~= all.subrange(0, i as int));
            assert(next.last() == values[i as int]@);
        }
        match parse_vendor_attribute(values[i].as_str().as_bytes()) {
            Some((id, attr)) => {
                output.insert(id, attr);
                assert(preset_view(output@) =~= preset_view(before).insert(id, attr@));
            },
            None => {},
        }
        i = i + 1;
    }
    assert(all.subrange(0, i as int) =~= all);
    output
}

/// What the drive database knows of a drive.
#[derive(Debug, Clone)]
pub struct Match {
    /// The family of models that the drive belongs to.
    pub family: Option<String>,
    /// A warning to show with the drive.
    pub warning: Option<String>,
    /// The presets of the drive, the user's own among them.
    pub presets: Preset,
}

/// Lays the user's presets over those of the drive database: the table
/// holds every identifier of either, and for an identifier that both hold,
/// the user's preset.
pub fn merge(database: Preset, overrides: Preset) -> (r: Preset)
    ensures
        preset_view(r@) == preset_view(database@).union_prefer_right(preset_view(overrides@)),
{
    let mut merged = database;
    let mut rest = overrides;
    let mut next: u16 = 0;
    while next < 256
        invariant
            next <= 256,
            forall|k: u8|
                k < next ==> !rest@.contains_key(k) && merged@.contains_key(k) == (
                database@.contains_key(k) || overrides@.contains_key(k)),
            forall|k: u8|
                k < next && overrides@.contains_key(k) ==> merged@[k] == overrides@[k],
            forall|k: u8|
                k < next && !overrides@.contains_key(k) && database@.contains_key(k) ==> merged@[k]
                    == database@[k],
            forall|k: u8|
                k >= next ==> rest@.contains_key(k) == overrides@.contains_key(k)
                    && merged@.contains_key(k) == database@.contains_key(k),
            forall|k: u8| k >= next && rest@.contains_key(k) ==> rest@[k] == overrides@[k],
            forall|k: u8| k >= next && merged@.contains_key(k) ==> merged@[k] == database@[k],
        decreases 256 - next,
    {
        let id = next as u8;
        match rest.remove(&id) {
            Some(attr) => {
                merged.insert(id, attr);
            },
            None => {},
        }
        next = next + 1;
    }
    assert(preset_view(merged@) =~= preset_view(database@).union_prefer_right(
        preset_view(overrides@),
    ));
    merged
}

/// The user's preset takes precedence: after a merge the entry of an
/// identifier that the user gave is the user's, whatever the drive database
/// holds for it.
pub proof fn law_override_takes_precedence(
    database: Map<u8, AttributeView>,
    overrides: Map<u8, AttributeView>,
    id: u8,
)
    requires
        overrides.contains_key(id),
    ensures
        database.union_prefer_right(overrides).contains_key(id),
        database.union_prefer_right(overrides)[id] == overrides[id],
{
}

/// A later preset replaces an earlier one of the same identifier: the entry
/// of an identifier is the one that the last `-v` pair with a preset of that
/// identifier gave.
pub proof fn law_last_preset_wins(toks: Seq<Seq<char>>, value: Seq<char>)
    requires
        spec_vendor_attribute(encode_utf8(value)) is Some,
    ensures
        ({
            let (id, attr) = spec_vendor_attribute(encode_utf8(value))->0;
            let table = spec_presets(toks + seq!["-v"@, value]);
            table.contains_key(id) && table[id] == attr
        }),
{
    let all = toks + seq!["-v"@, value];
    assert(all.subrange(0, all.len() - 2) =~= toks);
    assert(all[all.len() - 2] == "-v"@);
    assert(all[all.len() - 1] == value);
}

/// No table comes from a line whose last option has no value.
pub proof fn law_dangling_option_fails(line: Seq<char>)
    requires
        words(line).len() % 2 == 1,
    ensures
        spec_parse(line) is None,
{
}

/// The parts of a preset as they are written.
pub struct Written {
    /// The digits of the identifier.
    pub digits: Seq<u8>,
    pub format: Seq<u8>,
    pub byte_order: Option<Seq<u8>>,
    pub name: Option<Seq<u8>>,
    pub drivetype: Option<Type>,
}

/// Whether `f` can stand as a text field: it is not empty, it is
/// well-formed UTF-8, and it holds no byte that would close it.
pub open spec fn is_field(f: Seq<u8>, colon_ends: bool) -> bool {
    &&& f.len() > 0
    &&& valid_utf8(f)
    &&& forall|i: int| 0 <= i < f.len() ==> !ends_field(#[trigger] f[i], colon_ends)
}

/// Whether the parts can be written as a preset: the identifier is a number
/// that fits a byte, each text is a field, and a drive class comes with a
/// name only.
pub open spec fn can_be_written(w: Written) -> bool {
    &&& w.digits.len() > 0
    &&& forall|i: int| 0 <= i < w.digits.len() ==> is_digit(#[trigger] w.digits[i])
    &&& decimal_value(w.digits) <= 255
    &&& is_field(w.format, true)
    &&& w.byte_order is Some ==> is_field(w.byte_order->0, false)
    &&& w.name is Some ==> is_field(w.name->0, false)
    &&& w.drivetype is Some ==> w.name is Some
}

/// The bytes that write a drive class.
pub open spec fn class_word(class: Type) -> Seq<u8> {
    match class {
        Type::HDD => seq![0x48u8, 0x44u8, 0x44u8],
        Type::SSD => seq![0x53u8, 0x53u8, 0x44u8],
    }
}

/// The preset that the parts write: `ID,FORMAT[:BYTEORDER][,NAME[,CLASS]]`.
pub open spec fn written(w: Written) -> Seq<u8> {
    w.digits + seq![COMMA] + w.format + (match w.byte_order {
        Some(o) => seq![COLON] + o,
        None => Seq::empty(),
    }) + (match w.name {
        Some(n) => seq![COMMA] + n + (match w.drivetype {
            Some(c) => seq![COMMA] + class_word(c),
            None => Seq::empty(),
        }),
        None => Seq::empty(),
    })
}

/// What is read back from the parts.
pub open spec fn read_back(w: Written) -> (u8, AttributeView) {
    (
        decimal_value(w.digits) as u8,
        AttributeView {
            name: match w.name {
                Some(n) => Some(decode_utf8(n)),
                None => None,
            },
            format: decode_utf8(w.format),
            byte_order: match w.byte_order {
                Some(o) => decode_utf8(o),
                None => default_byte_order(decode_utf8(w.format)),
            },
            drivetype: w.drivetype,
        },
    )
}

/// A text field that stands at `from` in `s` and is closed there is read as
/// it stands.
proof fn lemma_text_field(s: Seq<u8>, from: int, f: Seq<u8>, colon_ends: bool)
    requires
        0 <= from,
        from + f.len() <= s.len(),
        s.subrange(from, from + f.len()) == f,
        is_field(f, colon_ends),
        from + f.len() == s.len() || ends_field(s[from + f.len()], colon_ends),
    ensures
        text_field(s, from, colon_ends) == Some((decode_utf8(f), from + f.len())),
{
    let end = from + f.len();
    assert forall|j: int| from <= j < end implies !ends_field(s[j], colon_ends) by {
        assert(s[j] == f[j - from]);
    }
    lemma_field_len(s, from, end, colon_ends);
}

/// Every preset that can be written is read back as it was written: the
/// grammar takes each text of the form `ID,FORMAT[:BYTEORDER][,NAME[,CLASS]]`
/// and gives back its parts, with the byte order of the format where none
/// was written.
#[verifier::rlimit(40)]
pub proof fn law_written_preset_is_read_back(w: Written)
    requires
        can_be_written(w),
    ensures
        spec_vendor_attribute(written(w)) == Some(read_back(w)),
{
    let s = written(w);
    let d = w.digits.len() as int;
    let order_part = match w.byte_order {
        Some(o) => seq![COLON] + o,
        None => Seq::empty(),
    };
    let class_part = match w.drivetype {
        Some(c) => seq![COMMA] + class_word(c),
        None => Seq::empty(),
    };
    let name_part = match w.name {
        Some(n) => seq![COMMA] + n + class_part,
        None => Seq::empty(),
    };
    assert(s == w.digits + seq![COMMA] + w.format + order_part + name_part);
    let p = d + 1 + w.format.len();
    let q = p + order_part.len();
    assert(s.len() == q + name_part.len());
    assert forall|j: int| 0 <= j < d implies is_digit(s[j]) by {
        assert(s[j] == w.digits[j]);
    }
    assert(s[d] == COMMA);
    lemma_digits_len(s, 0, d);
    assert(s.subrange(0, d) =~= w.digits);
    assert(s.subrange(d + 1, p) =~= w.format);
    if p < s.len() {
        if w.byte_order is Some {
            assert(s[p] == order_part[0]);
        } else {
            assert(s[p] == name_part[0]);
        }
    }
    lemma_text_field(s, d + 1, w.format, true);
    if w.byte_order is Some {
        let o = w.byte_order->0;
        assert(s[p] == order_part[0]);
        assert(s.subrange(p + 1, q) =~= o);
        if q < s.len() {
            assert(s[q] == name_part[0]);
        }
        lemma_text_field(s, p + 1, o, false);
    } else {
        assert(q == p);
        if p < s.len() {
            assert(s[p] == name_part[0]);
            assert(s[p] != COLON);
        }
    }
    if w.name is Some {
        let n = w.name->0;
        let r = q + 1 + n.len();
        assert(s[q] == name_part[0]);
        assert(s.subrange(q + 1, r) =~= n) by {
            assert forall|j: int| 0 <= j < n.len() implies s[q + 1 + j] == n[j] by {
                assert(s[q + 1 + j] == name_part[1 + j]);
            }
        }
        if r < s.len() {
            assert(s[r] == name_part[r - q]);
            assert(s[r] == class_part[0]);
        }
        lemma_text_field(s, q + 1, n, false);
        if w.drivetype is Some {
            let c = w.drivetype->0;
            assert(s[r] == COMMA);
            assert(s.len() == r + 4);
            assert(s.subrange(r + 1, r + 4) =~= class_word(c)) by {
                assert forall|j: int| 0 <= j < 3 implies s[r + 1 + j] == class_word(c)[j] by {
                    assert(s[r + 1 + j] == name_part[r + 1 + j - q]);
                    assert(name_part[r + 1 + j - q] == class_part[1 + j]);
                }
            }
            assert(seq![0x48u8, 0x44u8, 0x44u8][0] == 0x48u8);
            assert(seq![0x53u8, 0x53u8, 0x44u8][0] == 0x53u8);
            assert(drive_class(s, r) == Some(c));
        } else {
            assert(r == s.len());
        }
    } else {
        assert(q == s.len());
    }
}

} // verus!
