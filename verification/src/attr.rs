//! Attributes of a drive as they are reported, and the verdict on each:
//! whether its value has fallen to the threshold now, did so in the past, or
//! never did as far as is known.
use crate::presets::{preset_view, AttributeView, Match};
use crate::report::{decimal, push_decimal};
use vstd::prelude::*;
use vstd::std_specs::iter::IteratorSpec;

verus! {

broadcast use {vstd::string::group_string_axioms, vstd::std_specs::hash::group_hash_axioms};

/// One attribute as the drive reports it, decoded.
#[derive(Debug, Clone)]
pub struct SmartAttribute {
    pub id: u8,
    pub name: Option<String>,
    pub pre_fail: bool,
    pub online: bool,
    pub performance: bool,
    pub error_rate: bool,
    pub event_count: bool,
    pub self_preserving: bool,
    /// The flag bits that have no name.
    pub flags: u16,
    pub value: Option<u8>,
    pub worst: Option<u8>,
    pub thresh: Option<u8>,
    /// The raw value, as it is shown.
    pub raw: String,
}

/// What a [`SmartAttribute`] holds, as plain values.
pub struct SmartAttributeView {
    pub id: u8,
    pub name: Option<Seq<char>>,
    pub pre_fail: bool,
    pub online: bool,
    pub performance: bool,
    pub error_rate: bool,
    pub event_count: bool,
    pub self_preserving: bool,
    pub flags: u16,
    pub value: Option<u8>,
    pub worst: Option<u8>,
    pub thresh: Option<u8>,
    pub raw: Seq<char>,
}

impl DeepView for SmartAttribute {
    type V = SmartAttributeView;

    open spec fn deep_view(&self) -> SmartAttributeView {
        SmartAttributeView {
            id: self.id,
            name: self.name.deep_view(),
            pre_fail: self.pre_fail,
            online: self.online,
            performance: self.performance,
            error_rate: self.error_rate,
            event_count: self.event_count,
            self_preserving: self.self_preserving,
            flags: self.flags,
            value: self.value,
            worst: self.worst,
            thresh: self.thresh,
            raw: self.raw@,
        }
    }
}

impl View for SmartAttribute {
    type V = SmartAttributeView;

    open spec fn view(&self) -> SmartAttributeView {
        self.deep_view()
    }
}

/// Whether an attribute has failed.
#[derive(Debug, Clone, Copy, PartialEq, Eq)]
pub enum Fail {
    /// The value is at or below the threshold.
    Now,
    /// The value is above the threshold, or unknown, but the worst value
    /// ever seen is at or below the threshold.
    Past,
    /// Neither holds, or the threshold is not known.
    Never,
}

/// The verdict on an attribute from its value, the worst value ever seen
/// and the threshold, as far as each is known. A value at or below the
/// threshold decides before the worst value is looked at.
pub open spec fn spec_classify(value: Option<u8>, worst: Option<u8>, thresh: Option<u8>) -> Fail {
    if value is Some && thresh is Some && value->0 <= thresh->0 {
        Fail::Now
    } else if worst is Some && thresh is Some && worst->0 <= thresh->0 {
        Fail::Past
    } else {
        Fail::Never
    }
}

/// Gives the verdict on an attribute.
pub fn classify(value: Option<u8>, worst: Option<u8>, thresh: Option<u8>) -> (r: Fail)
    ensures
        r == spec_classify(value, worst, thresh),
{
    match (value, worst, thresh) {
        (Some(v), _, Some(t)) if v <= t => Fail::Now,
        (_, Some(w), Some(t)) if w <= t => Fail::Past,
        _ => Fail::Never,
    }
}

impl SmartAttribute {
    /// Gives the verdict on the attribute.
    pub fn fail(&self) -> (r: Fail)
        ensures
            r == spec_classify(self.value, self.worst, self.thresh),
    {
        classify(self.value, self.worst, self.thresh)
    }
}

/// Without a threshold nothing is known to have failed, whatever the value
/// and the worst value are.
pub proof fn law_unknown_threshold_never_fails(value: Option<u8>, worst: Option<u8>)
    ensures
        spec_classify(value, worst, None) == Fail::Never,
{
}

/// A value at or below the threshold is failing now, whatever the worst
/// value is.
pub proof fn law_failing_now_takes_precedence(value: u8, worst: Option<u8>, thresh: u8)
    requires
        value <= thresh,
    ensures
        spec_classify(Some(value), worst, Some(thresh)) == Fail::Now,
{
}

/// An attribute has failed in the past exactly when its threshold is known,
/// its worst value is at or below it, and its value is unknown or above it.
pub proof fn law_failed_in_the_past(value: Option<u8>, worst: Option<u8>, thresh: Option<u8>)
    ensures
        spec_classify(value, worst, thresh) == Fail::Past <==> thresh is Some && worst is Some
            && worst->0 <= thresh->0 && (value is None || value->0 > thresh->0),
{
}

/// Where the entry `i` of a table begins. A table holds 30 entries of 12
/// bytes each, after 2 bytes of its own.
pub open spec fn entry_at(i: int) -> int {
    2 + 12 * i
}

/// The threshold of the attribute `id`: the second byte of the first entry
/// of the threshold table, from entry `from` on, whose first byte is `id`.
pub open spec fn spec_threshold(thresh: Seq<u8>, id: u8, from: int) -> Option<u8>
    decreases 30 - from,
{
    if from < 0 || from >= 30 {
        None
    } else if thresh[entry_at(from)] == id {
        Some(thresh[entry_at(from) + 1])
    } else {
        spec_threshold(thresh, id, from + 1)
    }
}

/// The byte of the entry at `at` that a token of the byte order stands for:
/// `0` to `5` are the raw bytes from the lowest, `v` the value, `w` the worst
/// value, `r` the reserved byte; any other token stands for zero.
pub open spec fn raw_byte(data: Seq<u8>, at: int, token: char) -> u8 {
    if token == '0' {
        data[at + 5]
    } else if token == '1' {
        data[at + 6]
    } else if token == '2' {
        data[at + 7]
    } else if token == '3' {
        data[at + 8]
    } else if token == '4' {
        data[at + 9]
    } else if token == '5' {
        data[at + 10]
    } else if token == 'v' {
        data[at + 3]
    } else if token == 'w' {
        data[at + 4]
    } else if token == 'r' {
        data[at + 11]
    } else {
        0
    }
}

/// The raw number of the entry at `at`: its bytes in the order that `order`
/// gives, the first the most significant; of more than eight bytes the last
/// eight count.
pub open spec fn raw_number(data: Seq<u8>, at: int, order: Seq<char>) -> u64
    decreases order.len(),
{
    if order.len() == 0 {
        0
    } else {
        (raw_number(data, at, order.drop_last()) << 8) | (raw_byte(data, at, order.last()) as u64)
    }
}

/// The byte order of the attribute `id`: that of its preset, or the six raw
/// bytes from the highest down where it has none.
pub open spec fn spec_order(presets: Map<u8, AttributeView>, id: u8) -> Seq<char> {
    if presets.contains_key(id) {
        presets[id].byte_order
    } else {
        "543210"@
    }
}

/// The flags of the entry at `at`.
pub open spec fn spec_flags(data: Seq<u8>, at: int) -> u16 {
    (data[at + 1] as u16) | ((data[at + 2] as u16) << 8)
}

/// The attribute that the entry `i` of the value table holds. The value and
/// the worst value are known unless the byte order takes them into the raw
/// number.
pub open spec fn spec_attribute(
    data: Seq<u8>,
    thresh: Seq<u8>,
    presets: Map<u8, AttributeView>,
    i: int,
) -> SmartAttributeView {
    let at = entry_at(i);
    let id = data[at];
    let flags = spec_flags(data, at);
    let order = spec_order(presets, id);
    SmartAttributeView {
        id: id,
        name: if presets.contains_key(id) {
            presets[id].name
        } else {
            None
        },
        pre_fail: flags & 0x01 != 0,
        online: flags & 0x02 != 0,
        performance: flags & 0x04 != 0,
        error_rate: flags & 0x08 != 0,
        event_count: flags & 0x10 != 0,
        self_preserving: flags & 0x20 != 0,
        flags: flags & 0xffc0,
        value: if order.contains('v') {
            None
        } else {
            Some(data[at + 3])
        },
        worst: if order.contains('w') {
            None
        } else {
            Some(data[at + 4])
        },
        thresh: spec_threshold(thresh, id, 0),
        raw: decimal(raw_number(data, at, order) as nat),
    }
}

/// The attributes that the first `upto` entries of the value table hold, in
/// order; an entry with the identifier zero holds none.
pub open spec fn spec_smart_values(
    data: Seq<u8>,
    thresh: Seq<u8>,
    presets: Map<u8, AttributeView>,
    upto: int,
) -> Seq<SmartAttributeView>
    decreases upto,
{
    if upto <= 0 {
        Seq::empty()
    } else {
        let before = spec_smart_values(data, thresh, presets, upto - 1);
        if data[entry_at(upto - 1)] == 0 {
            before
        } else {
            before.push(spec_attribute(data, thresh, presets, upto - 1))
        }
    }
}

/// The presets that come with what the drive database says of the drive;
/// none where there is no database.
pub open spec fn spec_presets_of(dbentry: Option<Match>) -> Map<u8, AttributeView> {
    match dbentry {
        Some(m) => preset_view(m.presets@),
        None => Map::empty(),
    }
}

/// Looks up the threshold of the attribute `id`.
fn threshold(thresh: &[u8; 512], id: u8) -> (r: Option<u8>)
    ensures
        r == spec_threshold(thresh@, id, 0),
{
    let mut i: usize = 0;
    while i < 30
        invariant
            i <= 30,
            spec_threshold(thresh@, id, 0) == spec_threshold(thresh@, id, i as int),
        decreases 30 - i,
    {
        if thresh[2 + 12 * i] == id {
            return Some(thresh[3 + 12 * i]);
        }
        i = i + 1;
    }
    None
}

/// Gives the byte that a token of the byte order stands for.
fn token_byte(data: &[u8; 512], at: usize, token: char) -> (r: u8)
    requires
        at + 12 <= 512,
    ensures
        r == raw_byte(data@, at as int, token),
{
    if token == '0' {
        data[at + 5]
    } else if token == '1' {
        data[at + 6]
    } else if token == '2' {
        data[at + 7]
    } else if token == '3' {
        data[at + 8]
    } else if token == '4' {
        data[at + 9]
    } else if token == '5' {
        data[at + 10]
    } else if token == 'v' {
        data[at + 3]
    } else if token == 'w' {
        data[at + 4]
    } else if token == 'r' {
        data[at + 11]
    } else {
        0
    }
}

/// Reads the raw number of the entry at `at`, and tells whether the byte
/// order takes in the value and the worst value.
fn read_raw(data: &[u8; 512], at: usize, order: &str) -> (r: (u64, bool, bool))
    requires
        at + 12 <= 512,
    ensures
        r.0 == raw_number(data@, at as int, order@),
        r.1 == order@.contains('v'),
        r.2 == order@.contains('w'),
{
    let mut number: u64 = 0;
    let mut has_value = false;
    let mut has_worst = false;
    let mut tokens = order.chars();
    let ghost mut seen: Seq<char> = Seq::empty();
    loop
        invariant
            at + 12 <= 512,
            tokens.obeys_prophetic_iter_laws(),
            tokens.decrease() is Some,
            seen + tokens.remaining() == order@,
            number == raw_number(data@, at as int, seen),
            has_value == seen.contains('v'),
            has_worst == seen.contains('w'),
        decreases tokens.decrease()->0,
    {
        let ghost before = tokens.remaining();
        match tokens.next() {
            None => {
                assert(order@ =~= seen);
                return (number, has_value, has_worst);
            },
            Some(token) => {
                let ghost next = seen.push(token);
                proof {
                    assert(next + tokens.remaining() =~= seen + before);
                    assert(next.drop_last() =~= seen);
                    assert(next.last() == token);
                    assert(next[seen.len() as int] == token);
                    assert forall|c: char| next.contains(c) <==> seen.contains(c) || c == token by {
                        if seen.contains(c) {
                            let k = choose|k: int| 0 <= k < seen.len() && seen[k] == c;
                            assert(next[k] == c);
                        }
                        if next.contains(c) && c != token {
                            let k = choose|k: int| 0 <= k < next.len() && next[k] == c;
                            assert(seen[k] == c);
                        }
                    }
                }
                number = (number << 8) | (token_byte(data, at, token) as u64);
                if token == 'v' {
                    has_value = true;
                }
                if token == 'w' {
                    has_worst = true;
                }
                proof {
                    seen = next;
                }
            },
        }
    }
}

/// Reads the attribute that the entry at `at` of the value table holds.
fn read_attribute(data: &[u8; 512], thresh: &[u8; 512], dbentry: &Option<Match>, i: usize) -> (r:
    SmartAttribute)
    requires
        i < 30,
    ensures
        r.deep_view() == spec_attribute(data@, thresh@, spec_presets_of(*dbentry), i as int),
{
    let at = 2 + 12 * i;
    let id = data[at];
    let flags: u16 = (data[at + 1] as u16) | ((data[at + 2] as u16) << 8);
    let preset = match dbentry {
        Some(found) => found.presets.get(&id),
        None => None,
    };
    let ghost presets = spec_presets_of(*dbentry);
    assert(preset is Some <==> presets.contains_key(id));
    assert(preset matches Some(p) ==> p@ == presets[id]);
    let order = match preset {
        Some(p) => p.byte_order.as_str(),
        None => "543210",
    };
    let name = match preset {
        Some(p) => match &p.name {
            Some(n) => Some(n.clone()),
            None => None,
        },
        None => None,
    };
    let (number, has_value, has_worst) = read_raw(data, at, order);
    let mut raw = String::new();
    push_decimal(&mut raw, number);
    assert(raw@ =~= decimal(number as nat));
    SmartAttribute {
        id: id,
        name: name,
        pre_fail: flags & 0x01 != 0,
        online: flags & 0x02 != 0,
        performance: flags & 0x04 != 0,
        error_rate: flags & 0x08 != 0,
        event_count: flags & 0x10 != 0,
        self_preserving: flags & 0x20 != 0,
        flags: flags & 0xffc0,
        value: if has_value {
            None
        } else {
            Some(data[at + 3])
        },
        worst: if has_worst {
            None
        } else {
            Some(data[at + 4])
        },
        thresh: threshold(thresh, id),
        raw: raw,
    }
}

/// Decodes the attributes of a drive from the block of values and the block
/// of thresholds that it returned, with the presets that hold for the drive.
///
/// Each of the 30 entries of the value table whose identifier is not zero
/// gives an attribute, in the order of the table. The preset of the
/// identifier, if there is one, gives the name and the byte order of the raw
/// number. The threshold is the one that the threshold table holds for the
/// identifier, if it holds one.
pub fn parse_smart_values(data: &[u8; 512], thresh: &[u8; 512], dbentry: &Option<Match>) -> (r: Vec<
    SmartAttribute,
>)
    ensures
        r.deep_view() == spec_smart_values(data@, thresh@, spec_presets_of(*dbentry), 30),
{
    let mut attrs: Vec<SmartAttribute> = Vec::new();
    let mut i: usize = 0;
    assert(attrs.deep_view() =~= Seq::<SmartAttributeView>::empty());
    while i < 30
        invariant
            i <= 30,
            attrs.deep_view() == spec_smart_values(
                data@,
                thresh@,
                spec_presets_of(*dbentry),
                i as int,
            ),
        decreases 30 - i,
    {
        let ghost before = attrs.deep_view();
        if data[2 + 12 * i] != 0 {
            let attr = read_attribute(data, thresh, dbentry, i);
            attrs.push(attr);
            assert(attrs.deep_view() =~= before.push(attr.deep_view()));
        }
        i = i + 1;
    }
    attrs
}

} // verus!
