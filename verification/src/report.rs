//! The text of the reports: the table of attributes, single lines of the
//! identification, and the list of devices.
use crate::attr::{Fail, SmartAttribute, SmartAttributeView, spec_classify};
use vstd::prelude::*;
use separator::Separatable;

verus! {

broadcast use vstd::string::group_string_axioms;

/// The digit that writes `d` in base ten or sixteen.
pub open spec fn digit_char(d: int) -> char {
    if d < 10 {
        (0x30 + d) as char
    } else {
        (0x61 + d - 10) as char
    }
}

/// The decimal digits of `n`, without leading zeros.
pub open spec fn decimal(n: nat) -> Seq<char>
    decreases n,
{
    if n < 10 {
        seq![digit_char(n as int)]
    } else {
        decimal(n / 10).push(digit_char((n % 10) as int))
    }
}

/// The four hexadecimal digits of `n`, in lower case.
pub open spec fn hex4(n: u16) -> Seq<char> {
    seq![
        digit_char(n as int / 4096),
        digit_char(n as int / 256 % 16),
        digit_char(n as int / 16 % 16),
        digit_char(n as int % 16),
    ]
}

/// `n` times the character `c`; nothing where `n` is not positive.
pub open spec fn repeated(c: char, n: int) -> Seq<char> {
    Seq::new(
        if n > 0 {
            n as nat
        } else {
            0
        },
        |i: int| c,
    )
}

/// `text` moved to the right of a field of `width` characters by spaces; a
/// longer text is left as it is.
pub open spec fn right_aligned(text: Seq<char>, width: int) -> Seq<char> {
    repeated(' ', width - text.len()) + text
}

/// `text` at the left of a field of `width` characters that is filled up
/// with `fill`; a longer text is left as it is.
pub open spec fn left_aligned(text: Seq<char>, width: int, fill: char) -> Seq<char> {
    text + repeated(fill, width - text.len())
}

/// Digits in groups of three from the right, with a comma between groups.
pub open spec fn grouped(digits: Seq<char>) -> Seq<char>
    decreases digits.len(),
{
    if digits.len() <= 3 {
        digits
    } else {
        grouped(digits.subrange(0, digits.len() - 3)) + seq![','] + digits.subrange(
            digits.len() - 3,
            digits.len() as int,
        )
    }
}

/// The decimal digits of `n` with a comma before every group of three
/// digits but the first.
pub open spec fn separated(n: nat) -> Seq<char> {
    grouped(decimal(n))
}

/// `separated_string` of the crate `separator`, on a `u64`: the number in
/// decimal digits, with a comma put before each digit whose distance from
/// the end is a multiple of three, the first digit excepted.
#[verifier::external_body]
fn separated_string(n: u64) -> (r: String)
    ensures
        r@ == separated(n as nat),
{
    n.separated_string()
}

/// In words, whether a feature is supported.
pub open spec fn spec_sup(b: bool) -> Seq<char> {
    if b {
        "supported"@
    } else {
        "not supported"@
    }
}

/// Tells in words whether a feature is supported.
pub fn bool_to_sup(b: bool) -> (r: &'static str)
    ensures
        r@ == spec_sup(b),
{
    match b {
        false => "not supported",
        true => "supported",
    }
}

/// Gives `c` for a flag that is set and `-` for one that is not.
pub fn bool_to_flag(b: bool, c: char) -> (r: char)
    ensures
        r == (if b {
            c
        } else {
            '-'
        }),
{
    if b {
        c
    } else {
        '-'
    }
}

/// How the health status is shown: good, bad, or not decided by what the
/// device returned.
pub open spec fn spec_health_label(status: Option<bool>) -> Seq<char> {
    match status {
        Some(true) => "good"@,
        Some(false) => "BAD"@,
        None => "(unknown)"@,
    }
}

/// Gives the word that shows a health status.
pub fn health_label(status: Option<bool>) -> (r: &'static str)
    ensures
        r@ == spec_health_label(status),
{
    match status {
        Some(true) => "good",
        Some(false) => "BAD",
        None => "(unknown)",
    }
}

/// The line that shows the health status.
pub fn health_line(status: Option<bool>) -> (r: String)
    ensures
        r@ == "S.M.A.R.T. health status: "@ + spec_health_label(status) + "\n"@,
{
    let mut line = String::from_str("S.M.A.R.T. health status: ");
    line.append(health_label(status));
    line.append("\n");
    line
}

/// How a verdict is shown in the table of attributes.
pub open spec fn spec_fail_label(fail: Fail) -> Seq<char> {
    match fail {
        Fail::Now => "NOW "@,
        Fail::Past => "past"@,
        Fail::Never => "-   "@,
    }
}

/// Gives the mark that shows a verdict in the table of attributes.
pub fn fail_label(fail: Fail) -> (r: &'static str)
    ensures
        r@ == spec_fail_label(fail),
{
    match fail {
        Fail::Now => "NOW ",
        Fail::Past => "past",
        Fail::Never => "-   ",
    }
}

/// The line that shows the capacity in bytes.
pub fn capacity_line(capacity: u64) -> (r: String)
    ensures
        r@ == "Capacity: "@ + separated(capacity as nat) + " bytes\n"@,
{
    let mut line = String::from_str("Capacity: ");
    let digits = separated_string(capacity);
    line.append(digits.as_str());
    line.append(" bytes\n");
    line
}

/// Gives the digit that writes `d`.
fn digit(d: u8) -> (r: char)
    requires
        d < 16,
    ensures
        r == digit_char(d as int),
{
    if d < 10 {
        (0x30 + d) as char
    } else {
        (0x61 + (d - 10)) as char
    }
}

/// Appends the decimal digits of `n`.
pub(crate) fn push_decimal(out: &mut String, n: u64)
    ensures
        final(out)@ == old(out)@ + decimal(n as nat),
    decreases n,
{
    let ghost before = out@;
    if n >= 10 {
        push_decimal(out, n / 10);
    }
    out.push(digit((n % 10) as u8));
    assert(out@ =~= before + decimal(n as nat));
}

/// Appends `n` times the character `c`.
fn push_repeated(out: &mut String, c: char, n: usize)
    ensures
        final(out)@ == old(out)@ + repeated(c, n as int),
{
    let mut i: usize = 0;
    assert(out@ =~= old(out)@ + repeated(c, 0));
    while i < n
        invariant
            i <= n,
            out@ == old(out)@ + repeated(c, i as int),
        decreases n - i,
    {
        out.push(c);
        i = i + 1;
        assert(out@ =~= old(out)@ + repeated(c, i as int));
    }
}

/// Appends a byte in decimal digits, moved to the right of three characters.
fn push_byte(out: &mut String, v: u8)
    ensures
        final(out)@ == old(out)@ + right_aligned(decimal(v as nat), 3),
{
    let ghost before = out@;
    proof {
        reveal_with_fuel(decimal, 3);
    }
    if v < 10 {
        out.push(' ');
        out.push(' ');
        out.push(digit(v));
        assert(decimal(v as nat) =~= seq![digit_char(v as int)]);
        assert(out@ =~= before + right_aligned(decimal(v as nat), 3));
    } else if v < 100 {
        out.push(' ');
        out.push(digit(v / 10));
        out.push(digit(v % 10));
        assert(decimal(v as nat) =~= seq![digit_char(v as int / 10), digit_char(v as int % 10)]);
        assert(out@ =~= before + right_aligned(decimal(v as nat), 3));
    } else {
        out.push(digit(v / 100));
        out.push(digit(v / 10 % 10));
        out.push(digit(v % 10));
        assert(decimal((v / 10) as nat) =~= seq![
            digit_char(v as int / 100),
            digit_char(v as int / 10 % 10),
        ]);
        assert(decimal(v as nat) =~= seq![
            digit_char(v as int / 100),
            digit_char(v as int / 10 % 10),
            digit_char(v as int % 10),
        ]);
        assert(out@ =~= before + right_aligned(decimal(v as nat), 3));
    }
}

/// A byte in a column of three characters, or `blank` where it is not known.
pub open spec fn spec_byte_column(v: Option<u8>, blank: Seq<char>) -> Seq<char> {
    match v {
        Some(v) => right_aligned(decimal(v as nat), 3),
        None => blank,
    }
}

/// Appends a byte in a column of three characters, or `blank` where it is
/// not known.
fn push_byte_column(out: &mut String, v: Option<u8>, blank: &str)
    ensures
        final(out)@ == old(out)@ + spec_byte_column(v, blank@),
{
    match v {
        Some(v) => push_byte(out, v),
        None => out.append(blank),
    }
}

/// The six letters that show the named flags of an attribute, each replaced
/// by `-` where the flag is not set. The second stands for an attribute that
/// is updated during off-line testing only.
pub open spec fn spec_flag_letters(a: SmartAttributeView) -> Seq<char> {
    seq![
        if a.pre_fail { 'P' } else { '-' },
        if !a.online { 'O' } else { '-' },
        if a.performance { 'S' } else { '-' },
        if a.error_rate { 'R' } else { '-' },
        if a.event_count { 'C' } else { '-' },
        if a.self_preserving { 'K' } else { '-' },
    ]
}

/// The flag bits without a name: five spaces where there are none, else `+`
/// and four hexadecimal digits.
pub open spec fn spec_flag_bits(flags: u16) -> Seq<char> {
    if flags == 0 {
        "     "@
    } else {
        seq!['+'] + hex4(flags)
    }
}

/// The name of an attribute as the table shows it.
pub open spec fn spec_shown_name(name: Option<Seq<char>>) -> Seq<char> {
    match name {
        Some(n) => n,
        None => "?"@,
    }
}

/// The line of the table for one attribute.
pub open spec fn spec_attribute_line(a: SmartAttributeView) -> Seq<char> {
    right_aligned(decimal(a.id as nat), 3) + " "@ + left_aligned(spec_shown_name(a.name), 24, '.')
        + " "@ + spec_flag_letters(a) + spec_flag_bits(a.flags) + "    "@ + spec_byte_column(
        a.value,
        "---"@,
    ) + "   "@ + spec_byte_column(a.worst, "---"@) + "    "@ + spec_byte_column(a.thresh, "(?)"@)
        + " "@ + spec_fail_label(spec_classify(a.value, a.worst, a.thresh)) + " "@ + a.raw + "\n"@
}

/// Appends the name of an attribute in its column of 24 characters.
fn push_name(out: &mut String, name: &Option<String>)
    ensures
        final(out)@ == old(out)@ + left_aligned(spec_shown_name(name.deep_view()), 24, '.'),
{
    let ghost before = out@;
    let shown = match name {
        Some(name) => name.as_str(),
        None => "?",
    };
    assert(shown@ == spec_shown_name(name.deep_view()));
    out.append(shown);
    let len = shown.unicode_len();
    if len < 24 {
        push_repeated(out, '.', 24 - len);
    }
    assert(out@ =~= before + left_aligned(shown@, 24, '.'));
}

/// Appends the six letters that show the named flags of an attribute.
fn push_flag_letters(out: &mut String, a: &SmartAttribute)
    ensures
        final(out)@ == old(out)@ + spec_flag_letters(a.deep_view()),
{
    let ghost before = out@;
    out.push(bool_to_flag(a.pre_fail, 'P'));
    out.push(bool_to_flag(!a.online, 'O'));
    out.push(bool_to_flag(a.performance, 'S'));
    out.push(bool_to_flag(a.error_rate, 'R'));
    out.push(bool_to_flag(a.event_count, 'C'));
    out.push(bool_to_flag(a.self_preserving, 'K'));
    assert(out@ =~= before + spec_flag_letters(a.deep_view()));
}

/// Appends the flag bits without a name.
fn push_flag_bits(out: &mut String, flags: u16)
    ensures
        final(out)@ == old(out)@ + spec_flag_bits(flags),
{
    let ghost before = out@;
    if flags == 0 {
        out.append("     ");
    } else {
        out.push('+');
        out.push(digit((flags / 4096) as u8));
        out.push(digit((flags / 256 % 16) as u8));
        out.push(digit((flags / 16 % 16) as u8));
        out.push(digit((flags % 16) as u8));
        assert(out@ =~= before + (seq!['+'] + hex4(flags)));
    }
}

/// Appends `text`, and keeps account of what has been appended since
/// `before`.
pub(crate) fn push_text(out: &mut String, text: &str, Ghost(before): Ghost<Seq<char>>, Ghost(done): Ghost<Seq<char>>)
    requires
        old(out)@ == before + done,
    ensures
        final(out)@ == before + (done + text@),
{
    out.append(text);
    assert(out@ =~= before + (done + text@));
}

/// Appends the line of the table for one attribute.
fn push_attribute_line(out: &mut String, a: &SmartAttribute)
    ensures
        final(out)@ == old(out)@ + spec_attribute_line(a.deep_view()),
{
    let ghost before = out@;
    let ghost v = a.deep_view();
    push_byte(out, a.id);
    let ghost done = right_aligned(decimal(v.id as nat), 3);
    push_text(out, " ", Ghost(before), Ghost(done));
    let ghost done = done + " "@;
    push_name(out, &a.name);
    let ghost done = done + left_aligned(spec_shown_name(v.name), 24, '.');
    assert(out@ =~= before + done);
    push_text(out, " ", Ghost(before), Ghost(done));
    let ghost done = done + " "@;
    push_flag_letters(out, a);
    let ghost done = done + spec_flag_letters(v);
    assert(out@ =~= before + done);
    push_flag_bits(out, a.flags);
    let ghost done = done + spec_flag_bits(v.flags);
    assert(out@ =~= before + done);
    push_text(out, "    ", Ghost(before), Ghost(done));
    let ghost done = done + "    "@;
    push_byte_column(out, a.value, "---");
    let ghost done = done + spec_byte_column(v.value, "---"@);
    assert(out@ =~= before + done);
    push_text(out, "   ", Ghost(before), Ghost(done));
    let ghost done = done + "   "@;
    push_byte_column(out, a.worst, "---");
    let ghost done = done + spec_byte_column(v.worst, "---"@);
    assert(out@ =~= before + done);
    push_text(out, "    ", Ghost(before), Ghost(done));
    let ghost done = done + "    "@;
    push_byte_column(out, a.thresh, "(?)");
    let ghost done = done + spec_byte_column(v.thresh, "(?)"@);
    assert(out@ =~= before + done);
    push_text(out, " ", Ghost(before), Ghost(done));
    let ghost done = done + " "@;
    push_text(out, fail_label(a.fail()), Ghost(before), Ghost(done));
    let ghost done = done + spec_fail_label(spec_classify(v.value, v.worst, v.thresh));
    push_text(out, " ", Ghost(before), Ghost(done));
    let ghost done = done + " "@;
    push_text(out, a.raw.as_str(), Ghost(before), Ghost(done));
    let ghost done = done + v.raw;
    push_text(out, "\n", Ghost(before), Ghost(done));
}

/// The lines of the table for the attributes `values`, in order.
pub open spec fn spec_attribute_lines(values: Seq<SmartAttributeView>) -> Seq<char>
    decreases values.len(),
{
    if values.len() == 0 {
        Seq::empty()
    } else {
        spec_attribute_lines(values.drop_last()) + spec_attribute_line(values.last())
    }
}

/// The heading of the table of attributes.
pub open spec fn spec_attributes_heading() -> Seq<char> {
    "S.M.A.R.T. attribute values:\n"@
        + " ID name                     flags        value worst thresh fail raw\n"@
}

/// The key to the flag letters that closes the table of attributes.
pub open spec fn spec_attributes_legend() -> Seq<char> {
    "                             │││││└─ K auto-keep\n"@
        + "                             ││││└── C event count\n"@
        + "                             │││└─── R error rate\n"@
        + "                             ││└──── S speed/performance\n"@
        + "                             │└───── O updated during off-line testing\n"@
        + "                             └────── P prefailure warning\n"@
}

/// The table of attributes: a heading, a line for each attribute, and the
/// key to the flag letters; a single line where there is no attribute.
pub open spec fn spec_attributes(values: Seq<SmartAttributeView>) -> Seq<char> {
    if values.len() == 0 {
        "No S.M.A.R.T. attributes found.\n"@
    } else {
        spec_attributes_heading() + spec_attribute_lines(values) + spec_attributes_legend()
    }
}

/// Gives the line of the table for one attribute.
pub fn attribute_line(a: &SmartAttribute) -> (r: String)
    ensures
        r@ == spec_attribute_line(a.deep_view()),
{
    let mut line = String::new();
    push_attribute_line(&mut line, a);
    assert(line@ =~= spec_attribute_line(a.deep_view()));
    line
}

/// Gives the table of attributes.
pub fn render_attributes(values: &Vec<SmartAttribute>) -> (r: String)
    ensures
        r@ == spec_attributes(values.deep_view()),
{
    if values.len() == 0 {
        return String::from_str("No S.M.A.R.T. attributes found.\n");
    }
    let ghost all = values.deep_view();
    let mut out = String::from_str("S.M.A.R.T. attribute values:\n");
    out.append(" ID name                     flags        value worst thresh fail raw\n");
    let mut i: usize = 0;
    assert(all.subrange(0, 0) =~= Seq::<SmartAttributeView>::empty());
    assert(out@ =~= spec_attributes_heading() + spec_attribute_lines(all.subrange(0, 0)));
    while i < values.len()
        invariant
            i <= values.len(),
            all == values.deep_view(),
            out@ == spec_attributes_heading() + spec_attribute_lines(all.subrange(0, i as int)),
        decreases values.len() - i,
    {
        let ghost upto = all.subrange(0, i as int);
        let ghost next = all.subrange(0, i + 1);
        proof {
            assert(next.drop_last() =~= upto);
            assert(next.last() == values[i as int].deep_view());
        }
        push_attribute_line(&mut out, &values[i]);
        assert(out@ =~= spec_attributes_heading() + spec_attribute_lines(next));
        i = i + 1;
    }
    assert(all.subrange(0, i as int) =~= all);
    let ghost body = out@;
    out.append("                             │││││└─ K auto-keep\n");
    out.append("                             ││││└── C event count\n");
    out.append("                             │││└─── R error rate\n");
    out.append("                             ││└──── S speed/performance\n");
    out.append("                             │└───── O updated during off-line testing\n");
    out.append("                             └────── P prefailure warning\n");
    assert(out@ =~= body + spec_attributes_legend());
    out
}

/// Why the list of devices cannot be shown.
#[derive(Debug, Clone, Copy, PartialEq, Eq)]
pub enum ListError {
    /// A device was named, and the list takes none.
    RedundantDevice,
    /// The list could not be written as JSON.
    Json,
}

/// The devices, one to a line.
pub open spec fn spec_lines(items: Seq<Seq<char>>) -> Seq<char>
    decreases items.len(),
{
    if items.len() == 0 {
        Seq::empty()
    } else {
        spec_lines(items.drop_last()) + items.last() + "\n"@
    }
}

/// The JSON text that `serde_json::to_string` writes for a list of strings.
pub uninterp spec fn json_of_strings(items: Seq<Seq<char>>) -> Seq<char>;

/// The error of `serde_json`; nothing is read from it.
#[verifier::external_type_specification]
#[verifier::external_body]
pub struct ExJsonError(serde_json::Error);

/// `serde_json::to_string` on a list of strings: where it succeeds, its
/// result is the JSON text of the list.
#[verifier::external_body]
fn to_json(items: &Vec<String>) -> (r: Result<String, serde_json::Error>)
    ensures
        r matches Ok(text) ==> text@ == json_of_strings(items.deep_view()),
{
    serde_json::to_string(items)
}

/// Closes the JSON text of the list with a line end, or reports that there
/// is none.
pub fn json_line(encoded: Result<String, serde_json::Error>) -> (r: Result<String, ListError>)
    ensures
        match encoded {
            Ok(text) => r matches Ok(line) && line@ == text@ + "\n"@,
            Err(_) => r == Err::<String, ListError>(ListError::Json),
        },
{
    match encoded {
        Ok(text) => {
            let mut line = text;
            line.append("\n");
            Ok(line)
        },
        Err(_) => Err(ListError::Json),
    }
}

/// Gives the devices, one to a line.
pub fn lines(items: &Vec<String>) -> (r: String)
    ensures
        r@ == spec_lines(items.deep_view()),
{
    let ghost all = items.deep_view();
    let mut out = String::new();
    let mut i: usize = 0;
    assert(all.subrange(0, 0) =~= Seq::<Seq<char>>::empty());
    while i < items.len()
        invariant
            i <= items.len(),
            all == items.deep_view(),
            out@ == spec_lines(all.subrange(0, i as int)),
        decreases items.len() - i,
    {
        let ghost before = out@;
        let ghost next = all.subrange(0, i + 1);
        proof {
            assert(next.drop_last() =~= all.subrange(0, i as int));
            assert(next.last() == items[i as int]@);
        }
        out.append(items[i].as_str());
        out.append("\n");
        assert(out@ =~= before + items[i as int]@ + "\n"@);
        i = i + 1;
    }
    assert(all.subrange(0, i as int) =~= all);
    out
}

/// Refuses a device: the list takes none.
pub fn refuse_device(dev: &Option<&str>) -> (r: Result<(), ListError>)
    ensures
        dev is Some ==> r == Err::<(), ListError>(ListError::RedundantDevice),
        dev is None ==> r is Ok,
{
    if dev.is_some() {
        Err(ListError::RedundantDevice)
    } else {
        Ok(())
    }
}

/// Gives the text that lists the devices `devs`: one to a line, or as one
/// line of JSON where `json` is set.
///
/// The list takes no device: where `dev` names one, the call fails. Where
/// the JSON text cannot be had, the call fails too.
pub fn list(dev: &Option<&str>, devs: &Vec<String>, json: bool) -> (r: Result<String, ListError>)
    ensures
        dev is Some ==> r == Err::<String, ListError>(ListError::RedundantDevice),
        dev is None && !json ==> (r matches Ok(text) && text@ == spec_lines(devs.deep_view())),
        dev is None && json ==> match r {
            Ok(text) => text@ == json_of_strings(devs.deep_view()) + "\n"@,
            Err(e) => e == ListError::Json,
        },
{
    match refuse_device(dev) {
        Err(e) => {
            return Err(e);
        },
        Ok(_) => {},
    }
    if json {
        json_line(to_json(devs))
    } else {
        Ok(lines(devs))
    }
}

impl ListError {
    /// Gives the line that tells the user of the error.
    pub fn message(&self) -> (r: &'static str)
        ensures
            r@ == (match *self {
                ListError::RedundantDevice => "<device> is redundant\n"@,
                ListError::Json => "cannot write the list as JSON\n"@,
            }),
    {
        match self {
            ListError::RedundantDevice => "<device> is redundant\n",
            ListError::Json => "cannot write the list as JSON\n",
        }
    }
}

} // verus!
