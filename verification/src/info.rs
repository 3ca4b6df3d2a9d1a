//! The identification of a drive, and the text that shows it.
use crate::presets::Match;
use crate::query::{spec_ternary_text, Ternary};
use crate::report::{
    bool_to_sup, capacity_line, decimal, push_decimal, push_text, separated, spec_sup,
};
use vstd::prelude::*;

verus! {

broadcast use vstd::string::group_string_axioms;

/// The rotation rate of a drive.
#[derive(Debug, Clone, Copy, PartialEq, Eq)]
pub enum RPM {
    Unknown,
    NonRotating,
    RPM(u16),
}

/// What a drive reports of itself, decoded.
#[derive(Debug, Clone)]
pub struct Id {
    /// The drive says that what it reports is incomplete.
    pub incomplete: bool,
    pub model: String,
    pub firmware: String,
    pub serial: String,
    pub rpm: RPM,
    /// Capacity in bytes.
    pub capacity: u64,
    pub sector_size_log: u32,
    pub sector_size_phy: u32,
    pub ata_version: Option<String>,
    pub hpa: Ternary,
    pub apm: Ternary,
    pub aam: Ternary,
    pub read_look_ahead: Ternary,
    pub write_cache: Ternary,
    pub power_mgmt_supported: bool,
    pub gp_logging_supported: bool,
    pub trusted_computing_supported: bool,
    pub security: Ternary,
    /// The state of health monitoring, which gates the health and attribute
    /// queries.
    pub smart: Ternary,
    pub smart_error_logging_supported: bool,
    pub smart_self_test_supported: bool,
}

/// What an [`Id`] holds, as plain values.
pub struct IdView {
    pub incomplete: bool,
    pub model: Seq<char>,
    pub firmware: Seq<char>,
    pub serial: Seq<char>,
    pub rpm: RPM,
    pub capacity: u64,
    pub sector_size_log: u32,
    pub sector_size_phy: u32,
    pub ata_version: Option<Seq<char>>,
    pub hpa: Ternary,
    pub apm: Ternary,
    pub aam: Ternary,
    pub read_look_ahead: Ternary,
    pub write_cache: Ternary,
    pub power_mgmt_supported: bool,
    pub gp_logging_supported: bool,
    pub trusted_computing_supported: bool,
    pub security: Ternary,
    pub smart: Ternary,
    pub smart_error_logging_supported: bool,
    pub smart_self_test_supported: bool,
}

impl DeepView for Id {
    type V = IdView;

    open spec fn deep_view(&self) -> IdView {
        IdView {
            incomplete: self.incomplete,
            model: self.model@,
            firmware: self.firmware@,
            serial: self.serial@,
            rpm: self.rpm,
            capacity: self.capacity,
            sector_size_log: self.sector_size_log,
            sector_size_phy: self.sector_size_phy,
            ata_version: self.ata_version.deep_view(),
            hpa: self.hpa,
            apm: self.apm,
            aam: self.aam,
            read_look_ahead: self.read_look_ahead,
            write_cache: self.write_cache,
            power_mgmt_supported: self.power_mgmt_supported,
            gp_logging_supported: self.gp_logging_supported,
            trusted_computing_supported: self.trusted_computing_supported,
            security: self.security,
            smart: self.smart,
            smart_error_logging_supported: self.smart_error_logging_supported,
            smart_self_test_supported: self.smart_self_test_supported,
        }
    }
}

impl View for Id {
    type V = IdView;

    open spec fn view(&self) -> IdView {
        self.deep_view()
    }
}

/// What the drive database says of a drive, as far as it is shown: the
/// family and the warning, each if there is one.
pub open spec fn spec_notes(dbentry: Option<Match>) -> Option<(Option<Seq<char>>, Option<Seq<char>>)> {
    match dbentry {
        Some(m) => Some((m.family.deep_view(), m.warning.deep_view())),
        None => None,
    }
}

/// A line made of a label and a value.
pub open spec fn field(label: Seq<char>, value: Seq<char>) -> Seq<char> {
    label + value + "\n"@
}

/// The line that shows the rotation rate; none where it is not known.
pub open spec fn spec_rpm_line(rpm: RPM) -> Seq<char> {
    match rpm {
        RPM::Unknown => Seq::empty(),
        RPM::NonRotating => "RPM:      N/A (SSD or other non-rotating media)\n"@,
        RPM::RPM(i) => field("RPM:      "@, decimal(i as nat)),
    }
}

/// The lines that show what the drive database says of the drive; none
/// where no database was read.
pub open spec fn spec_database_lines(
    notes: Option<(Option<Seq<char>>, Option<Seq<char>>)>,
) -> Seq<char> {
    match notes {
        None => Seq::empty(),
        Some((family, warning)) => (match family {
            Some(f) => "Model family according to drive database:\n  "@ + f + "\n"@,
            None => "This drive is not in the drive database\n"@,
        }) + (match warning {
            Some(w) => "\n══════ WARNING ══════\n"@ + w + "\n═════════════════════\n"@,
            None => Seq::empty(),
        }),
    }
}

/// The line that shows the capacity rounded in decimal and in binary units.
pub open spec fn spec_sizes_line(decimal_size: Seq<char>, binary_size: Seq<char>) -> Seq<char> {
    "          ("@ + decimal_size + ", "@ + binary_size + ")\n"@
}

/// The lines that name the drive.
pub open spec fn spec_id_head(id: IdView, notes: Option<(Option<Seq<char>>, Option<Seq<char>>)>) -> Seq<
    char,
> {
    (if id.incomplete {
        "WARNING: device reports information it provides is incomplete\n\n"@
    } else {
        Seq::empty()
    }) + field("Model:    "@, id.model) + spec_rpm_line(id.rpm) + field("Firmware: "@, id.firmware)
        + field("Serial:   "@, id.serial) + spec_database_lines(notes) + "\n"@
}

/// The lines that show the capacity and the sector sizes.
pub open spec fn spec_id_sizes(id: IdView, decimal_size: Seq<char>, binary_size: Seq<char>) -> Seq<
    char,
> {
    ("Capacity: "@ + separated(id.capacity as nat) + " bytes\n"@) + spec_sizes_line(
        decimal_size,
        binary_size,
    ) + field("Sector size (logical):  "@, decimal(id.sector_size_log as nat)) + field(
        "Sector size (physical): "@,
        decimal(id.sector_size_phy as nat),
    ) + "\n"@ + field(
        "ATA version:\n"@,
        match id.ata_version {
            Some(v) => v,
            None => "unknown"@,
        },
    ) + "\n"@
}

/// The lines that show the features of the drive.
pub open spec fn spec_id_features(id: IdView) -> Seq<char> {
    field("Host protected area:           "@, spec_ternary_text(id.hpa)) + field(
        "Advanced Power Management:     "@,
        spec_ternary_text(id.apm),
    ) + field("Automatic Acoustic Management: "@, spec_ternary_text(id.aam)) + field(
        "Read look-ahead:               "@,
        spec_ternary_text(id.read_look_ahead),
    ) + field("Write cache:                   "@, spec_ternary_text(id.write_cache)) + field(
        "Power management:              "@,
        spec_sup(id.power_mgmt_supported),
    ) + field("General purpose logging:       "@, spec_sup(id.gp_logging_supported)) + field(
        "Trusted computing:             "@,
        spec_sup(id.trusted_computing_supported),
    ) + field("ATA security:                  "@, spec_ternary_text(id.security)) + "\n"@
}

/// The lines that show the state of health monitoring.
pub open spec fn spec_id_smart(id: IdView) -> Seq<char> {
    field("S.M.A.R.T.:    "@, spec_ternary_text(id.smart)) + field(
        "Error logging: "@,
        spec_sup(id.smart_error_logging_supported),
    ) + field("Self-test:     "@, spec_sup(id.smart_self_test_supported)) + "\n"@
}

/// The text that shows the identification of a drive.
pub open spec fn spec_id(
    id: IdView,
    notes: Option<(Option<Seq<char>>, Option<Seq<char>>)>,
    decimal_size: Seq<char>,
    binary_size: Seq<char>,
) -> Seq<char> {
    spec_id_head(id, notes) + spec_id_sizes(id, decimal_size, binary_size) + spec_id_features(id)
        + spec_id_smart(id)
}

/// Gives a line made of a label and a value.
fn field_line(label: &str, value: &str) -> (r: String)
    ensures
        r@ == field(label@, value@),
{
    let mut line = String::from_str(label);
    line.append(value);
    line.append("\n");
    line
}

/// Gives a line made of a label and a number.
fn number_line(label: &str, n: u64) -> (r: String)
    ensures
        r@ == field(label@, decimal(n as nat)),
{
    let mut line = String::from_str(label);
    push_decimal(&mut line, n);
    line.append("\n");
    line
}

/// Gives the line that shows the rotation rate.
fn rpm_line(rpm: RPM) -> (r: String)
    ensures
        r@ == spec_rpm_line(rpm),
{
    match rpm {
        RPM::Unknown => String::new(),
        RPM::NonRotating => String::from_str("RPM:      N/A (SSD or other non-rotating media)\n"),
        RPM::RPM(i) => number_line("RPM:      ", i as u64),
    }
}

/// Gives the lines that show what the drive database says of the drive.
fn database_lines(dbentry: &Option<Match>) -> (r: String)
    ensures
        r@ == spec_database_lines(spec_notes(*dbentry)),
{
    let mut out = String::new();
    match dbentry {
        None => {},
        Some(found) => {
            match &found.family {
                Some(family) => {
                    out.append("Model family according to drive database:\n  ");
                    out.append(family.as_str());
                    out.append("\n");
                },
                None => {
                    out.append("This drive is not in the drive database\n");
                },
            }
            match &found.warning {
                Some(warning) => {
                    out.append("\n══════ WARNING ══════\n");
                    out.append(warning.as_str());
                    out.append("\n═════════════════════\n");
                },
                None => {},
            }
        },
    }
    assert(out@ =~= spec_database_lines(spec_notes(*dbentry)));
    out
}

/// Gives the line that shows the capacity rounded in decimal and in binary
/// units.
fn sizes_line(decimal_size: &str, binary_size: &str) -> (r: String)
    ensures
        r@ == spec_sizes_line(decimal_size@, binary_size@),
{
    let mut line = String::from_str("          (");
    line.append(decimal_size);
    line.append(", ");
    line.append(binary_size);
    line.append(")\n");
    line
}

/// Gives the lines that name the drive.
fn id_head(id: &Id, dbentry: &Option<Match>) -> (r: String)
    ensures
        r@ == spec_id_head(id.deep_view(), spec_notes(*dbentry)),
{
    let ghost none = Seq::<char>::empty();
    let mut out = String::new();
    if id.incomplete {
        out.append("WARNING: device reports information it provides is incomplete\n\n");
    }
    let ghost done = out@;
    assert(out@ =~= none + done);
    let line = field_line("Model:    ", id.model.as_str());
    push_text(&mut out, line.as_str(), Ghost(none), Ghost(done));
    let ghost done = done + line@;
    let line = rpm_line(id.rpm);
    push_text(&mut out, line.as_str(), Ghost(none), Ghost(done));
    let ghost done = done + line@;
    let line = field_line("Firmware: ", id.firmware.as_str());
    push_text(&mut out, line.as_str(), Ghost(none), Ghost(done));
    let ghost done = done + line@;
    let line = field_line("Serial:   ", id.serial.as_str());
    push_text(&mut out, line.as_str(), Ghost(none), Ghost(done));
    let ghost done = done + line@;
    let line = database_lines(dbentry);
    push_text(&mut out, line.as_str(), Ghost(none), Ghost(done));
    let ghost done = done + line@;
    push_text(&mut out, "\n", Ghost(none), Ghost(done));
    let ghost done = done + "\n"@;
    assert(out@ =~= done);
    out
}

/// Gives the lines that show the capacity and the sector sizes.
fn id_sizes(id: &Id, decimal_size: &str, binary_size: &str) -> (r: String)
    ensures
        r@ == spec_id_sizes(id.deep_view(), decimal_size@, binary_size@),
{
    let ghost none = Seq::<char>::empty();
    let mut out = capacity_line(id.capacity);
    let ghost done = out@;
    assert(out@ =~= none + done);
    let line = sizes_line(decimal_size, binary_size);
    push_text(&mut out, line.as_str(), Ghost(none), Ghost(done));
    let ghost done = done + line@;
    let line = number_line("Sector size (logical):  ", id.sector_size_log as u64);
    push_text(&mut out, line.as_str(), Ghost(none), Ghost(done));
    let ghost done = done + line@;
    let line = number_line("Sector size (physical): ", id.sector_size_phy as u64);
    push_text(&mut out, line.as_str(), Ghost(none), Ghost(done));
    let ghost done = done + line@;
    push_text(&mut out, "\n", Ghost(none), Ghost(done));
    let ghost done = done + "\n"@;
    let line = field_line(
        "ATA version:\n",
        match &id.ata_version {
            Some(version) => version.as_str(),
            None => "unknown",
        },
    );
    push_text(&mut out, line.as_str(), Ghost(none), Ghost(done));
    let ghost done = done + line@;
    push_text(&mut out, "\n", Ghost(none), Ghost(done));
    let ghost done = done + "\n"@;
    assert(out@ =~= done);
    out
}

/// Gives the lines that show the features of the drive.
fn id_features(id: &Id) -> (r: String)
    ensures
        r@ == spec_id_features(id.deep_view()),
{
    let ghost none = Seq::<char>::empty();
    let mut out = field_line("Host protected area:           ", id.hpa.text());
    let ghost done = out@;
    assert(out@ =~= none + done);
    let line = field_line("Advanced Power Management:     ", id.apm.text());
    push_text(&mut out, line.as_str(), Ghost(none), Ghost(done));
    let ghost done = done + line@;
    let line = field_line("Automatic Acoustic Management: ", id.aam.text());
    push_text(&mut out, line.as_str(), Ghost(none), Ghost(done));
    let ghost done = done + line@;
    let line = field_line("Read look-ahead:               ", id.read_look_ahead.text());
    push_text(&mut out, line.as_str(), Ghost(none), Ghost(done));
    let ghost done = done + line@;
    let line = field_line("Write cache:                   ", id.write_cache.text());
    push_text(&mut out, line.as_str(), Ghost(none), Ghost(done));
    let ghost done = done + line@;
    let line = field_line("Power management:              ", bool_to_sup(id.power_mgmt_supported));
    push_text(&mut out, line.as_str(), Ghost(none), Ghost(done));
    let ghost done = done + line@;
    let line = field_line("General purpose logging:       ", bool_to_sup(id.gp_logging_supported));
    push_text(&mut out, line.as_str(), Ghost(none), Ghost(done));
    let ghost done = done + line@;
    let line = field_line(
        "Trusted computing:             ",
        bool_to_sup(id.trusted_computing_supported),
    );
    push_text(&mut out, line.as_str(), Ghost(none), Ghost(done));
    let ghost done = done + line@;
    let line = field_line("ATA security:                  ", id.security.text());
    push_text(&mut out, line.as_str(), Ghost(none), Ghost(done));
    let ghost done = done + line@;
    push_text(&mut out, "\n", Ghost(none), Ghost(done));
    let ghost done = done + "\n"@;
    assert(out@ =~= done);
    out
}

/// Gives the lines that show the state of health monitoring.
fn id_smart(id: &Id) -> (r: String)
    ensures
        r@ == spec_id_smart(id.deep_view()),
{
    let ghost none = Seq::<char>::empty();
    let mut out = field_line("S.M.A.R.T.:    ", id.smart.text());
    let ghost done = out@;
    assert(out@ =~= none + done);
    let line = field_line("Error logging: ", bool_to_sup(id.smart_error_logging_supported));
    push_text(&mut out, line.as_str(), Ghost(none), Ghost(done));
    let ghost done = done + line@;
    let line = field_line("Self-test:     ", bool_to_sup(id.smart_self_test_supported));
    push_text(&mut out, line.as_str(), Ghost(none), Ghost(done));
    let ghost done = done + line@;
    push_text(&mut out, "\n", Ghost(none), Ghost(done));
    let ghost done = done + "\n"@;
    assert(out@ =~= done);
    out
}

/// Gives the text that shows the identification of a drive.
///
/// `dbentry` is what the drive database says of the drive, if a database
/// was read. `decimal_size` and `binary_size` are the capacity rounded in
/// decimal and in binary units, as they are to be shown.
pub fn render_id(id: &Id, dbentry: &Option<Match>, decimal_size: &str, binary_size: &str) -> (r:
    String)
    ensures
        r@ == spec_id(id.deep_view(), spec_notes(*dbentry), decimal_size@, binary_size@),
{
    let mut out = id_head(id, dbentry);
    let sizes = id_sizes(id, decimal_size, binary_size);
    out.append(sizes.as_str());
    let features = id_features(id);
    out.append(features.as_str());
    let smart = id_smart(id);
    out.append(smart.as_str());
    out
}

/// The word `i` of the identification block, low byte first.
pub open spec fn spec_word(data: Seq<u8>, i: int) -> u16 {
    (data[2 * i] as u16) | ((data[2 * i + 1] as u16) << 8)
}

/// The bytes of a text that fills `words` words from the word `first` on. A
/// word holds two characters, the first of them in its high byte.
pub open spec fn text_bytes(data: Seq<u8>, first: int, words: int) -> Seq<u8> {
    Seq::new(
        (2 * words) as nat,
        |k: int|
            data[2 * first + (if k % 2 == 0 {
                k + 1
            } else {
                k - 1
            })],
    )
}

/// Where `s` ends once the spaces at its end are taken off.
pub open spec fn trim_end(s: Seq<u8>) -> int
    decreases s.len(),
{
    if s.len() > 0 && s.last() == 0x20 {
        trim_end(s.drop_last())
    } else {
        s.len() as int
    }
}

/// Where the text begins that follows the spaces of `s` from `from` on.
pub open spec fn trim_start(s: Seq<u8>, from: int) -> int
    decreases s.len() - from,
{
    if 0 <= from < s.len() && s[from] == 0x20 {
        trim_start(s, from + 1)
    } else {
        from
    }
}

/// `s` without the spaces at its ends.
pub open spec fn trimmed(s: Seq<u8>) -> Seq<u8> {
    let kept = s.subrange(0, trim_end(s));
    kept.subrange(trim_start(kept, 0), kept.len() as int)
}

/// The characters that the bytes stand for, each byte being one character.
pub open spec fn as_text(s: Seq<u8>) -> Seq<char> {
    s.map_values(|b: u8| b as char)
}

/// The text that fills `words` words of the identification block from the
/// word `first` on, without the spaces at its ends.
pub open spec fn spec_text(data: Seq<u8>, first: int, words: int) -> Seq<char> {
    as_text(trimmed(text_bytes(data, first, words)))
}

/// The state of a feature that is supported or not, and enabled or not.
pub open spec fn spec_ternary(supported: bool, enabled: bool) -> Ternary {
    if !supported {
        Ternary::Unsupported
    } else if !enabled {
        Ternary::Disabled
    } else {
        Ternary::Enabled
    }
}

/// Whether the block tells of its sector sizes.
pub open spec fn sizes_told(data: Seq<u8>) -> bool {
    spec_word(data, 106) & 0xc000 == 0x4000
}

/// The size of a logical sector in bytes: twice the number of words that
/// the block gives where it gives one, and 512 otherwise.
pub open spec fn spec_sector_size_log(data: Seq<u8>) -> int {
    if sizes_told(data) && spec_word(data, 106) & 0x1000 != 0 {
        2 * (spec_word(data, 117) + 65536 * spec_word(data, 118))
    } else {
        512
    }
}

/// The size of a physical sector in bytes: that of the logical sector,
/// doubled as often as the block says.
pub open spec fn spec_sector_size_phy(data: Seq<u8>) -> int {
    if sizes_told(data) && spec_word(data, 106) & 0x2000 != 0 {
        spec_sector_size_log(data) * spec_pow2((spec_word(data, 106) & 0x000f) as nat)
    } else {
        spec_sector_size_log(data)
    }
}

/// Two to the power of `n`.
pub open spec fn spec_pow2(n: nat) -> int
    decreases n,
{
    if n == 0 {
        1
    } else {
        2 * spec_pow2((n - 1) as nat)
    }
}

/// The number of sectors that can be addressed: the long count where the
/// drive has one, the short count otherwise.
pub open spec fn spec_sectors(data: Seq<u8>) -> int {
    if spec_word(data, 83) & 0x0400 != 0 {
        spec_word(data, 100) + 0x1_0000 * spec_word(data, 101) + 0x1_0000_0000 * spec_word(
            data,
            102,
        ) + 0x1_0000_0000_0000 * spec_word(data, 103)
    } else {
        spec_word(data, 60) + 0x1_0000 * spec_word(data, 61)
    }
}

/// `n`, or the largest number of the kind where `n` is beyond it.
pub open spec fn at_most(n: int, max: int) -> int {
    if n > max {
        max
    } else {
        n
    }
}

/// The newest version of the standard that the drive says it follows.
pub open spec fn spec_ata_version(versions: u16) -> Option<Seq<char>> {
    if versions == 0 || versions == 0xffff {
        None
    } else if versions & 0x0800 != 0 {
        Some("ACS-4"@)
    } else if versions & 0x0400 != 0 {
        Some("ACS-3"@)
    } else if versions & 0x0200 != 0 {
        Some("ACS-2"@)
    } else if versions & 0x0100 != 0 {
        Some("ATA8-ACS"@)
    } else if versions & 0x0080 != 0 {
        Some("ATA/ATAPI-7"@)
    } else if versions & 0x0040 != 0 {
        Some("ATA/ATAPI-6"@)
    } else if versions & 0x0020 != 0 {
        Some("ATA/ATAPI-5"@)
    } else if versions & 0x0010 != 0 {
        Some("ATA/ATAPI-4"@)
    } else {
        None
    }
}

/// The rotation rate that the drive reports.
pub open spec fn spec_rpm(rate: u16) -> RPM {
    if rate == 1 {
        RPM::NonRotating
    } else if 0x0401 <= rate <= 0xfffe {
        RPM::RPM(rate)
    } else {
        RPM::Unknown
    }
}

/// What the identification block says of the drive.
pub open spec fn spec_parse_id(data: Seq<u8>) -> IdView {
    let supported = spec_word(data, 82);
    let enabled = spec_word(data, 85);
    let supported2 = spec_word(data, 83);
    let enabled2 = spec_word(data, 86);
    let extension = spec_word(data, 84);
    IdView {
        incomplete: spec_word(data, 0) & 0x0004 != 0,
        model: spec_text(data, 27, 20),
        firmware: spec_text(data, 23, 4),
        serial: spec_text(data, 10, 10),
        rpm: spec_rpm(spec_word(data, 217)),
        capacity: at_most(spec_sectors(data) * spec_sector_size_log(data), u64::MAX as int) as u64,
        sector_size_log: at_most(spec_sector_size_log(data), u32::MAX as int) as u32,
        sector_size_phy: at_most(spec_sector_size_phy(data), u32::MAX as int) as u32,
        ata_version: spec_ata_version(spec_word(data, 80)),
        hpa: spec_ternary(supported & 0x0400 != 0, enabled & 0x0400 != 0),
        apm: spec_ternary(supported2 & 0x0008 != 0, enabled2 & 0x0008 != 0),
        aam: spec_ternary(supported2 & 0x0200 != 0, enabled2 & 0x0200 != 0),
        read_look_ahead: spec_ternary(supported & 0x0040 != 0, enabled & 0x0040 != 0),
        write_cache: spec_ternary(supported & 0x0020 != 0, enabled & 0x0020 != 0),
        power_mgmt_supported: supported & 0x0008 != 0,
        gp_logging_supported: extension & 0x0020 != 0,
        trusted_computing_supported: spec_word(data, 48) & 0x0001 != 0,
        security: spec_ternary(supported & 0x0002 != 0, enabled & 0x0002 != 0),
        smart: spec_ternary(supported & 0x0001 != 0, enabled & 0x0001 != 0),
        smart_error_logging_supported: extension & 0x0001 != 0,
        smart_self_test_supported: extension & 0x0002 != 0,
    }
}

/// Reads the word `i` of the identification block.
fn word(data: &[u8; 512], i: usize) -> (r: u16)
    requires
        i < 256,
    ensures
        r == spec_word(data@, i as int),
{
    (data[2 * i] as u16) | ((data[2 * i + 1] as u16) << 8)
}

/// Gives the state of a feature that is supported or not, and enabled or
/// not.
fn ternary(supported: bool, enabled: bool) -> (r: Ternary)
    ensures
        r == spec_ternary(supported, enabled),
{
    if !supported {
        Ternary::Unsupported
    } else if !enabled {
        Ternary::Disabled
    } else {
        Ternary::Enabled
    }
}

/// The spaces at the end of `s` stop at `end`.
proof fn lemma_trim_end(s: Seq<u8>, end: int)
    requires
        0 <= end <= s.len(),
        forall|j: int| end <= j < s.len() ==> s[j] == 0x20,
        end == 0 || s[end - 1] != 0x20,
    ensures
        trim_end(s) == end,
    decreases s.len(),
{
    if end < s.len() {
        lemma_trim_end(s.drop_last(), end);
    }
}

/// The spaces from `from` on stop at `start`.
proof fn lemma_trim_start(s: Seq<u8>, from: int, start: int)
    requires
        0 <= from <= start <= s.len(),
        forall|j: int| from <= j < start ==> s[j] == 0x20,
        start == s.len() || s[start] != 0x20,
    ensures
        trim_start(s, from) == start,
    decreases start - from,
{
    if from < start {
        lemma_trim_start(s, from + 1, start);
    }
}

/// Reads the text that fills `words` words from the word `first` on.
fn text(data: &[u8; 512], first: usize, words: usize) -> (r: String)
    requires
        first + words <= 256,
    ensures
        r@ == spec_text(data@, first as int, words as int),
{
    let ghost all = text_bytes(data@, first as int, words as int);
    let mut bytes: Vec<u8> = Vec::new();
    let mut i: usize = 0;
    while i < words
        invariant
            i <= words,
            first + words <= 256,
            bytes@.len() == 2 * i,
            forall|k: int| 0 <= k < 2 * i ==> bytes@[k] == all[k],
            all == text_bytes(data@, first as int, words as int),
        decreases words - i,
    {
        bytes.push(data[2 * (first + i) + 1]);
        bytes.push(data[2 * (first + i)]);
        i = i + 1;
    }
    assert(bytes@ =~= all);
    let mut end: usize = bytes.len();
    while end > 0 && bytes[end - 1] == 0x20
        invariant
            end <= bytes.len(),
            forall|j: int| end <= j < bytes.len() ==> bytes@[j] == 0x20,
        decreases end,
    {
        end = end - 1;
    }
    let ghost kept = all.subrange(0, end as int);
    let mut start: usize = 0;
    while start < end && bytes[start] == 0x20
        invariant
            start <= end <= bytes.len(),
            forall|j: int| 0 <= j < start ==> bytes@[j] == 0x20,
        decreases end - start,
    {
        start = start + 1;
    }
    proof {
        lemma_trim_end(all, end as int);
        lemma_trim_start(kept, 0, start as int);
    }
    let ghost wanted = trimmed(all);
    assert(wanted =~= all.subrange(start as int, end as int));
    let mut out = String::new();
    let mut k: usize = start;
    assert(out@ =~= as_text(wanted.subrange(0, 0)));
    while k < end
        invariant
            start <= k <= end <= bytes.len(),
            bytes@ == all,
            wanted == all.subrange(start as int, end as int),
            out@ == as_text(wanted.subrange(0, k - start)),
        decreases end - k,
    {
        out.push(bytes[k] as char);
        assert(out@ =~= as_text(wanted.subrange(0, k + 1 - start)));
        k = k + 1;
    }
    assert(wanted.subrange(0, end - start) =~= wanted);
    out
}

/// A power of two grows with its exponent, and two to the fifteenth is
/// 32768.
proof fn lemma_pow2(a: nat, b: nat)
    requires
        a <= b,
    ensures
        0 < spec_pow2(a) <= spec_pow2(b),
        spec_pow2(15) == 32768,
    decreases b,
{
    reveal_with_fuel(spec_pow2, 16);
    if a < b {
        lemma_pow2(a, (b - 1) as nat);
    } else if a > 0 {
        lemma_pow2((a - 1) as nat, (a - 1) as nat);
    }
}

/// Gives two to the power of `n`.
fn pow2(n: u16) -> (r: u64)
    requires
        n <= 15,
    ensures
        r == spec_pow2(n as nat),
        r <= 32768,
{
    let mut r: u64 = 1;
    let mut k: u16 = 0;
    proof {
        lemma_pow2(0, 15);
    }
    while k < n
        invariant
            k <= n <= 15,
            r == spec_pow2(k as nat),
            r <= 32768,
        decreases n - k,
    {
        proof {
            lemma_pow2((k + 1) as nat, 15);
        }
        r = r * 2;
        k = k + 1;
    }
    r
}

/// Clips a number to 32 bits.
fn clip(n: u64) -> (r: u32)
    ensures
        r == at_most(n as int, u32::MAX as int),
{
    if n > 0xffff_ffff {
        0xffff_ffff
    } else {
        n as u32
    }
}

/// Gives the newest version of the standard that the drive says it follows.
fn ata_version(versions: u16) -> (r: Option<String>)
    ensures
        r.deep_view() == spec_ata_version(versions),
{
    let name = if versions == 0 || versions == 0xffff {
        return None;
    } else if versions & 0x0800 != 0 {
        "ACS-4"
    } else if versions & 0x0400 != 0 {
        "ACS-3"
    } else if versions & 0x0200 != 0 {
        "ACS-2"
    } else if versions & 0x0100 != 0 {
        "ATA8-ACS"
    } else if versions & 0x0080 != 0 {
        "ATA/ATAPI-7"
    } else if versions & 0x0040 != 0 {
        "ATA/ATAPI-6"
    } else if versions & 0x0020 != 0 {
        "ATA/ATAPI-5"
    } else if versions & 0x0010 != 0 {
        "ATA/ATAPI-4"
    } else {
        return None;
    };
    Some(String::from_str(name))
}

/// Decodes the identification block of a drive.
///
/// The texts are taken without the spaces at their ends. The capacity is
/// the number of sectors times the size of a logical sector; it and the
/// sector sizes stop at the largest number that they can hold.
pub fn parse_id(data: &[u8; 512]) -> (r: Id)
    ensures
        r.deep_view() == spec_parse_id(data@),
{
    let sizes = word(data, 106);
    let told = sizes & 0xc000 == 0x4000;
    let log: u64 = if told && sizes & 0x1000 != 0 {
        2 * (word(data, 117) as u64 + 65536 * (word(data, 118) as u64))
    } else {
        512
    };
    let phy: u64 = if told && sizes & 0x2000 != 0 {
        let shift = sizes & 0x000f;
        assert(shift <= 15) by (bit_vector)
            requires
                shift == sizes & 0x000f,
        ;
        let factor = pow2(shift);
        assert(log * factor <= 0x2_0000_0000 * 32768) by (nonlinear_arith)
            requires
                log <= 0x2_0000_0000,
                factor <= 32768,
        ;
        log * factor
    } else {
        log
    };
    let sectors: u64 = if word(data, 83) & 0x0400 != 0 {
        word(data, 100) as u64 + 0x1_0000 * (word(data, 101) as u64) + 0x1_0000_0000 * (word(
            data,
            102,
        ) as u64) + 0x1_0000_0000_0000 * (word(data, 103) as u64)
    } else {
        word(data, 60) as u64 + 0x1_0000 * (word(data, 61) as u64)
    };
    let capacity = match sectors.checked_mul(log) {
        Some(bytes) => bytes,
        None => u64::MAX,
    };
    let rate = word(data, 217);
    let supported = word(data, 82);
    let enabled = word(data, 85);
    let supported2 = word(data, 83);
    let enabled2 = word(data, 86);
    let extension = word(data, 84);
    Id {
        incomplete: word(data, 0) & 0x0004 != 0,
        model: text(data, 27, 20),
        firmware: text(data, 23, 4),
        serial: text(data, 10, 10),
        rpm: if rate == 1 {
            RPM::NonRotating
        } else if 0x0401 <= rate && rate <= 0xfffe {
            RPM::RPM(rate)
        } else {
            RPM::Unknown
        },
        capacity: capacity,
        sector_size_log: clip(log),
        sector_size_phy: clip(phy),
        ata_version: ata_version(word(data, 80)),
        hpa: ternary(supported & 0x0400 != 0, enabled & 0x0400 != 0),
        apm: ternary(supported2 & 0x0008 != 0, enabled2 & 0x0008 != 0),
        aam: ternary(supported2 & 0x0200 != 0, enabled2 & 0x0200 != 0),
        read_look_ahead: ternary(supported & 0x0040 != 0, enabled & 0x0040 != 0),
        write_cache: ternary(supported & 0x0020 != 0, enabled & 0x0020 != 0),
        power_mgmt_supported: supported & 0x0008 != 0,
        gp_logging_supported: extension & 0x0020 != 0,
        trusted_computing_supported: word(data, 48) & 0x0001 != 0,
        security: ternary(supported & 0x0002 != 0, enabled & 0x0002 != 0),
        smart: ternary(supported & 0x0001 != 0, enabled & 0x0001 != 0),
        smart_error_logging_supported: extension & 0x0001 != 0,
        smart_self_test_supported: extension & 0x0002 != 0,
    }
}

} // verus!
