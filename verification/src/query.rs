//! Sequencing of the commands that a report needs.
//!
//! The identification command always comes first: what it reports decides
//! whether the health and attribute queries may be issued at all. A section
//! whose feature is unsupported or disabled is answered by a notice, never
//! by a command. The caller carries out one action at a time and reports
//! how it went; a failed command ends the run.
use crate::text::same_text;
use vstd::prelude::*;

verus! {

broadcast use vstd::string::group_string_axioms;

/// Whether a feature of the device may be queried.
#[derive(Debug, Clone, Copy, PartialEq, Eq)]
pub enum Ternary {
    Unsupported,
    Disabled,
    Enabled,
}

/// A part of the report.
#[derive(Debug, Clone, Copy, PartialEq, Eq)]
pub enum Section {
    Info,
    Health,
    Attributes,
}

/// The parts of the report that were asked for.
#[derive(Debug, Clone, Copy, PartialEq, Eq)]
pub struct Sections {
    pub info: bool,
    pub health: bool,
    pub attrs: bool,
}

/// The operation of a command.
#[derive(Debug, Clone, Copy, PartialEq, Eq)]
pub enum Command {
    Identify,
    SMART,
}

/// The sub-commands of the health monitoring operation.
#[derive(Debug, Clone, Copy, PartialEq, Eq)]
pub enum SMARTFeature {
    ReadValues,
    ReadThresholds,
    ReturnStatus,
}

/// What a command answers with.
#[derive(Debug, Clone, Copy, PartialEq, Eq)]
pub enum Shape {
    /// A block of 512 bytes.
    Data,
    /// A block of 7 register bytes.
    Status,
}

/// A command as it is handed to the executor: the operation and its
/// selectors. A command that answers with a data block takes the feature,
/// the count and the low address only.
#[derive(Debug, Clone, Copy, PartialEq, Eq)]
pub struct CommandDescriptor {
    pub command: Command,
    pub shape: Shape,
    pub feature: u8,
    pub count: u8,
    pub address_low: u8,
    pub address_mid: u8,
    pub address_high: u8,
    pub device: u8,
}

/// One thing for the caller to do.
#[derive(Debug, Clone, Copy, PartialEq, Eq)]
pub enum Action {
    /// Hand the command to the executor.
    Execute(CommandDescriptor),
    /// Tell the user that the section is left out because its feature is in
    /// the given state.
    Notice(Section, Ternary),
    /// Present the section from what the commands returned.
    Present(Section),
}

/// What the caller reports back.
#[derive(Debug, Clone, Copy, PartialEq, Eq)]
pub enum Event {
    /// The run begins.
    Begin,
    /// The identification command returned; the device reports this state
    /// of its health monitoring.
    Identified(Ternary),
    /// The last action was carried out.
    Completed,
    /// The last command failed.
    Failed,
}

/// Where a run stands.
#[derive(Debug, Clone, Copy, PartialEq, Eq)]
pub enum State {
    /// Nothing has been asked of the device yet.
    Start,
    /// The identification command is under way.
    Identifying,
    /// The device is identified, and `next` actions of the plan that follows
    /// have been handed out.
    Running { smart: Ternary, next: usize },
    /// Every action has been carried out.
    Finished,
    /// A command failed, or an event came that the state does not expect.
    Aborted,
}

/// A run of queries on one device.
#[derive(Debug, Clone, Copy, PartialEq, Eq)]
pub struct Sequencer {
    pub sections: Sections,
    pub state: State,
}

/// How the state of a feature is shown.
pub open spec fn spec_ternary_text(state: Ternary) -> Seq<char> {
    match state {
        Ternary::Unsupported => "not supported"@,
        Ternary::Disabled => "supported, disabled"@,
        Ternary::Enabled => "supported, enabled"@,
    }
}

impl Ternary {
    /// Gives the words that show the state.
    pub fn text(self) -> (r: &'static str)
        ensures
            r@ == spec_ternary_text(self),
    {
        match self {
            Ternary::Unsupported => "not supported",
            Ternary::Disabled => "supported, disabled",
            Ternary::Enabled => "supported, enabled",
        }
    }
}

/// The number that selects a sub-command of the health monitoring operation.
pub open spec fn feature_code(feature: SMARTFeature) -> u8 {
    match feature {
        SMARTFeature::ReadValues => 0xd0,
        SMARTFeature::ReadThresholds => 0xd1,
        SMARTFeature::ReturnStatus => 0xda,
    }
}

/// The identification command: one block, no feature.
pub open spec fn spec_identify() -> CommandDescriptor {
    CommandDescriptor {
        command: Command::Identify,
        shape: Shape::Data,
        feature: 0,
        count: 1,
        address_low: 1,
        address_mid: 0,
        address_high: 0,
        device: 0,
    }
}

/// The command that reads one data block of the health monitoring
/// operation; the sub-command is its feature.
pub open spec fn spec_read_data(feature: SMARTFeature) -> CommandDescriptor {
    CommandDescriptor {
        command: Command::SMART,
        shape: Shape::Data,
        feature: feature_code(feature),
        count: 1,
        address_low: 0,
        address_mid: 0,
        address_high: 0,
        device: 0,
    }
}

/// The command that asks for the health status.
pub open spec fn spec_return_status() -> CommandDescriptor {
    CommandDescriptor {
        command: Command::SMART,
        shape: Shape::Status,
        feature: feature_code(SMARTFeature::ReturnStatus),
        count: 0,
        address_low: 0,
        address_mid: 0x4f,
        address_high: 0xc2,
        device: 0,
    }
}

/// Whether any part of the report was asked for.
pub open spec fn any_section(sections: Sections) -> bool {
    sections.info || sections.health || sections.attrs
}

/// The commands that a gated section needs, in order.
pub open spec fn section_commands(section: Section) -> Seq<Action> {
    match section {
        Section::Info => Seq::empty(),
        Section::Health => seq![Action::Execute(spec_return_status())],
        Section::Attributes => seq![
            Action::Execute(spec_read_data(SMARTFeature::ReadValues)),
            Action::Execute(spec_read_data(SMARTFeature::ReadThresholds)),
        ],
    }
}

/// What is done for a section that needs health monitoring: its commands and
/// its presentation where health monitoring is enabled, a notice otherwise.
pub open spec fn gated(section: Section, smart: Ternary) -> Seq<Action> {
    if smart is Enabled {
        section_commands(section).push(Action::Present(section))
    } else {
        seq![Action::Notice(section, smart)]
    }
}

/// The actions that follow the identification command, in order.
pub open spec fn spec_plan(sections: Sections, smart: Ternary) -> Seq<Action> {
    (if sections.info {
        seq![Action::Present(Section::Info)]
    } else {
        Seq::empty()
    }) + (if sections.health {
        gated(Section::Health, smart)
    } else {
        Seq::empty()
    }) + (if sections.attrs {
        gated(Section::Attributes, smart)
    } else {
        Seq::empty()
    })
}

/// Hands out the action at `next` of the plan, or finishes the run.
pub open spec fn spec_advance(sections: Sections, smart: Ternary, next: usize) -> (
    State,
    Option<Action>,
) {
    if next < spec_plan(sections, smart).len() {
        (
            State::Running { smart: smart, next: (next + 1) as usize },
            Some(spec_plan(sections, smart)[next as int]),
        )
    } else {
        (State::Finished, None)
    }
}

/// The state after an event, and the action to carry out next.
pub open spec fn spec_step(seq: Sequencer, event: Event) -> (State, Option<Action>) {
    match (seq.state, event) {
        (State::Finished, _) => (State::Finished, None),
        (State::Start, Event::Begin) => if any_section(seq.sections) {
            (State::Identifying, Some(Action::Execute(spec_identify())))
        } else {
            (State::Finished, None)
        },
        (State::Identifying, Event::Identified(smart)) => spec_advance(seq.sections, smart, 0),
        (State::Running { smart, next }, Event::Completed) => spec_advance(
            seq.sections,
            smart,
            next,
        ),
        _ => (State::Aborted, None),
    }
}

impl SMARTFeature {
    /// Gives the number that selects the sub-command.
    pub fn code(self) -> (r: u8)
        ensures
            r == feature_code(self),
    {
        match self {
            SMARTFeature::ReadValues => 0xd0,
            SMARTFeature::ReadThresholds => 0xd1,
            SMARTFeature::ReturnStatus => 0xda,
        }
    }
}

impl CommandDescriptor {
    /// Gives the identification command.
    pub fn identify() -> (r: CommandDescriptor)
        ensures
            r == spec_identify(),
    {
        CommandDescriptor {
            command: Command::Identify,
            shape: Shape::Data,
            feature: 0,
            count: 1,
            address_low: 1,
            address_mid: 0,
            address_high: 0,
            device: 0,
        }
    }

    /// Gives the command that reads a data block of the health monitoring
    /// operation.
    pub fn read_data(feature: SMARTFeature) -> (r: CommandDescriptor)
        ensures
            r == spec_read_data(feature),
    {
        CommandDescriptor {
            command: Command::SMART,
            shape: Shape::Data,
            feature: feature.code(),
            count: 1,
            address_low: 0,
            address_mid: 0,
            address_high: 0,
            device: 0,
        }
    }

    /// Gives the command that asks for the health status.
    pub fn return_status() -> (r: CommandDescriptor)
        ensures
            r == spec_return_status(),
    {
        CommandDescriptor {
            command: Command::SMART,
            shape: Shape::Status,
            feature: SMARTFeature::ReturnStatus.code(),
            count: 0,
            address_low: 0,
            address_mid: 0x4f,
            address_high: 0xc2,
            device: 0,
        }
    }
}

impl Sections {
    /// Gives the sections that the flags ask for; `all` asks for each.
    pub fn new(info: bool, attrs: bool, health: bool, all: bool) -> (r: Sections)
        ensures
            r == (Sections { info: info || all, health: health || all, attrs: attrs || all }),
    {
        Sections { info: info || all, health: health || all, attrs: attrs || all }
    }

    /// Tells whether any section is asked for.
    pub fn any(&self) -> (r: bool)
        ensures
            r == any_section(*self),
    {
        self.info || self.health || self.attrs
    }
}

/// Appends to `plan` what is done for a section that needs health
/// monitoring.
fn push_gated(plan: &mut Vec<Action>, section: Section, smart: Ternary)
    requires
        section is Health || section is Attributes,
    ensures
        final(plan)@ == old(plan)@ + gated(section, smart),
{
    let ghost before = plan@;
    match smart {
        Ternary::Enabled => {
            match section {
                Section::Health => {
                    plan.push(Action::Execute(CommandDescriptor::return_status()));
                },
                _ => {
                    plan.push(Action::Execute(CommandDescriptor::read_data(SMARTFeature::ReadValues)));
                    plan.push(
                        Action::Execute(CommandDescriptor::read_data(SMARTFeature::ReadThresholds)),
                    );
                },
            }
            plan.push(Action::Present(section));
        },
        _ => {
            plan.push(Action::Notice(section, smart));
        },
    }
    assert(plan@ =~= before + gated(section, smart));
}

/// Gives the actions that follow the identification command, in order: the
/// identification is presented if it was asked for, then come the health
/// status and the attributes, each gated by the state of health monitoring.
pub fn plan(sections: Sections, smart: Ternary) -> (r: Vec<Action>)
    ensures
        r@ == spec_plan(sections, smart),
{
    let mut plan: Vec<Action> = Vec::new();
    if sections.info {
        plan.push(Action::Present(Section::Info));
    }
    if sections.health {
        push_gated(&mut plan, Section::Health, smart);
    }
    if sections.attrs {
        push_gated(&mut plan, Section::Attributes, smart);
    }
    assert(plan@ =~= spec_plan(sections, smart));
    plan
}

impl Sequencer {
    /// Begins a run for the given sections.
    pub fn new(sections: Sections) -> (r: Sequencer)
        ensures
            r == (Sequencer { sections: sections, state: State::Start }),
    {
        Sequencer { sections: sections, state: State::Start }
    }

    /// Hands out the action at `next` of the plan, or finishes the run.
    fn advance(&mut self, smart: Ternary, next: usize) -> (r: Option<Action>)
        ensures
            final(self).sections == old(self).sections,
            (final(self).state, r) == spec_advance(old(self).sections, smart, next),
    {
        let plan = plan(self.sections, smart);
        if next < plan.len() {
            self.state = State::Running { smart: smart, next: next + 1 };
            Some(plan[next])
        } else {
            self.state = State::Finished;
            None
        }
    }

    /// Takes the outcome of the last action and gives the next one; `None`
    /// where the run is over.
    ///
    /// `Begin` starts the run: the identification command is handed out if
    /// any section is asked for. `Identified` and `Completed` hand out the
    /// next action of the plan. `Failed`, and any event that the state does
    /// not expect, abort the run: nothing more is handed out.
    pub fn step(&mut self, event: Event) -> (r: Option<Action>)
        ensures
            final(self).sections == old(self).sections,
            (final(self).state, r) == spec_step(*old(self), event),
    {
        match (self.state, event) {
            (State::Finished, _) => None,
            (State::Start, Event::Begin) => {
                if self.sections.any() {
                    self.state = State::Identifying;
                    Some(Action::Execute(CommandDescriptor::identify()))
                } else {
                    self.state = State::Finished;
                    None
                }
            },
            (State::Identifying, Event::Identified(smart)) => self.advance(smart, 0),
            (State::Running { smart, next }, Event::Completed) => self.advance(smart, next),
            _ => {
                self.state = State::Aborted;
                None
            },
        }
    }

    /// Tells whether the run ended because a command failed or an event came
    /// out of turn.
    pub fn aborted(&self) -> (r: bool)
        ensures
            r == (self.state is Aborted),
    {
        match self.state {
            State::Aborted => true,
            _ => false,
        }
    }
}

/// Whether a section may be queried, and if not, what the user is told.
#[derive(Debug, Clone, PartialEq, Eq)]
pub enum Gate {
    /// Health monitoring is enabled: the section is queried.
    Open,
    /// The section is left out; the text says why.
    Closed(String),
}

/// The text that tells the user why something cannot be shown; there is none
/// where health monitoring is enabled.
pub open spec fn spec_notice(status: Ternary, action_name: Seq<char>) -> Option<Seq<char>> {
    match status {
        Ternary::Unsupported => Some(
            "S.M.A.R.T. is not supported, cannot show "@ + action_name + "\n"@,
        ),
        Ternary::Disabled => Some("S.M.A.R.T. is disabled, cannot show "@ + action_name + "\n"@),
        Ternary::Enabled => None,
    }
}

/// What a section is called in a notice; the identification needs no
/// health monitoring and has no such name.
pub open spec fn spec_action_name(section: Section) -> Option<Seq<char>> {
    match section {
        Section::Info => None,
        Section::Health => Some("health status"@),
        Section::Attributes => Some("attributes"@),
    }
}

/// The text of the notice for a section whose feature is in the given state.
pub open spec fn spec_notice_text(section: Section, status: Ternary) -> Option<Seq<char>> {
    match spec_action_name(section) {
        Some(name) => spec_notice(status, name),
        None => None,
    }
}

/// Decides whether something that needs health monitoring may be queried.
///
/// Where health monitoring is unsupported or disabled the answer carries
/// the line that tells the user so; the two states give different lines.
pub fn when_smart_enabled(status: &Ternary, action_name: &str) -> (r: Gate)
    ensures
        match spec_notice(*status, action_name@) {
            None => r is Open,
            Some(text) => r matches Gate::Closed(t) && t@ == text,
        },
{
    match status {
        Ternary::Unsupported => {
            let mut text = String::from_str("S.M.A.R.T. is not supported, cannot show ");
            text.append(action_name);
            text.append("\n");
            Gate::Closed(text)
        },
        Ternary::Disabled => {
            let mut text = String::from_str("S.M.A.R.T. is disabled, cannot show ");
            text.append(action_name);
            text.append("\n");
            Gate::Closed(text)
        },
        Ternary::Enabled => Gate::Open,
    }
}

impl Section {
    /// Gives what the section is called in a notice.
    pub fn action_name(self) -> (r: Option<&'static str>)
        ensures
            r.deep_view() == spec_action_name(self),
    {
        match self {
            Section::Info => None,
            Section::Health => Some("health status"),
            Section::Attributes => Some("attributes"),
        }
    }
}

/// Gives the text of the notice for a section whose feature is in the given
/// state, or `None` where there is nothing to tell.
pub fn notice_text(section: Section, status: Ternary) -> (r: Option<String>)
    ensures
        r.deep_view() == spec_notice_text(section, status),
{
    match section.action_name() {
        Some(name) => match when_smart_enabled(&status, name) {
            Gate::Open => None,
            Gate::Closed(text) => Some(text),
        },
        None => None,
    }
}

/// After the identification, a command is handed to the executor only
/// where health monitoring is enabled.
pub proof fn law_commands_need_enabled(sections: Sections, smart: Ternary, k: int)
    requires
        0 <= k < spec_plan(sections, smart).len(),
        spec_plan(sections, smart)[k] is Execute,
    ensures
        smart is Enabled,
{
}

/// A section that is asked for and cannot be queried is explained: where
/// health monitoring is not enabled the plan holds no command, presents
/// nothing but the identification, and holds a notice for each of the
/// health and attribute sections that was asked for.
pub proof fn law_suppressed_sections_are_explained(sections: Sections, smart: Ternary)
    requires
        !(smart is Enabled),
    ensures
        forall|k: int|
            0 <= k < spec_plan(sections, smart).len() ==> !(#[trigger] spec_plan(
                sections,
                smart,
            )[k] is Execute),
        forall|k: int|
            0 <= k < spec_plan(sections, smart).len() && #[trigger] spec_plan(sections, smart)[k]
                is Present ==> spec_plan(sections, smart)[k] == Action::Present(Section::Info),
        sections.health ==> spec_plan(sections, smart).contains(
            Action::Notice(Section::Health, smart),
        ),
        sections.attrs ==> spec_plan(sections, smart).contains(
            Action::Notice(Section::Attributes, smart),
        ),
{
    let plan = spec_plan(sections, smart);
    let head: int = if sections.info {
        1
    } else {
        0
    };
    if sections.health {
        assert(plan[head] == Action::Notice(Section::Health, smart));
    }
    if sections.attrs {
        assert(plan[plan.len() - 1] == Action::Notice(Section::Attributes, smart));
    }
}

/// The identification command comes first, and every other command waits
/// for health monitoring to be reported enabled: a step hands out a command
/// either at the start of the run, and then it is the identification
/// command, or in a run whose device reported health monitoring enabled.
pub proof fn law_step_commands_are_gated(seq: Sequencer, event: Event)
    ensures
        spec_step(seq, event).1 matches Some(Action::Execute(command)) ==> {
            ||| seq.state is Start && command == spec_identify()
            ||| spec_step(seq, event).0 matches State::Running { smart, .. } && smart is Enabled
        },
{
    match (seq.state, event) {
        (State::Identifying, Event::Identified(smart)) => {
            if 0 < spec_plan(seq.sections, smart).len() && spec_plan(seq.sections, smart)[0]
                is Execute {
                law_commands_need_enabled(seq.sections, smart, 0);
            }
        },
        (State::Running { smart, next }, Event::Completed) => {
            if next < spec_plan(seq.sections, smart).len() && spec_plan(
                seq.sections,
                smart,
            )[next as int] is Execute {
                law_commands_need_enabled(seq.sections, smart, next as int);
            }
        },
        _ => {},
    }
}

/// A run that meets no failure carries out the plan, action by action:
/// the identification comes first if any section is asked for, the step
/// that takes the state of health monitoring hands out the first action of
/// the plan, each step after a completed action hands out the next, and the
/// step after the last finishes the run.
pub proof fn law_run_follows_the_plan(sections: Sections, smart: Ternary, k: int)
    requires
        0 <= k <= spec_plan(sections, smart).len(),
    ensures
        spec_step(Sequencer { sections: sections, state: State::Start }, Event::Begin) == (
            if any_section(sections) {
                (State::Identifying, Some(Action::Execute(spec_identify())))
            } else {
                (State::Finished, None::<Action>)
            }),
        spec_step(
            Sequencer { sections: sections, state: State::Identifying },
            Event::Identified(smart),
        ) == spec_advance(sections, smart, 0),
        spec_step(
            Sequencer { sections: sections, state: State::Running { smart: smart, next: k as usize } },
            Event::Completed,
        ) == (if k < spec_plan(sections, smart).len() {
            (
                State::Running { smart: smart, next: (k + 1) as usize },
                Some(spec_plan(sections, smart)[k]),
            )
        } else {
            (State::Finished, None::<Action>)
        }),
{
    assert(spec_plan(sections, smart).len() <= 7);
}

/// A failed command ends the run at once: the step that takes the failure
/// hands out nothing, and neither does any step after it, whatever event it
/// is given.
pub proof fn law_failure_ends_the_run(seq: Sequencer, later: Event)
    ensures
        spec_step(seq, Event::Failed).1 is None,
        !(seq.state is Finished) ==> spec_step(seq, Event::Failed).0 is Aborted,
        spec_step(Sequencer { sections: seq.sections, state: State::Aborted }, later) == (
            State::Aborted,
            None::<Action>,
        ),
{
}

/// A host operating system.
#[derive(Debug, Clone, Copy, PartialEq, Eq)]
pub enum HostOs {
    Linux,
    FreeBSD,
    Other,
}

/// A way of carrying commands to a device.
#[derive(Debug, Clone, Copy, PartialEq, Eq)]
pub enum Backend {
    /// Commands go to the device directly.
    Direct,
    /// Commands are wrapped in SCSI pass-through requests.
    ScsiPassThrough,
    /// Commands go through the host's own access method.
    Native,
}

/// Why no backend can be chosen.
#[derive(Debug, Clone, Copy, PartialEq, Eq)]
pub enum ConfigError {
    /// No backend exists for the host.
    UnsupportedHost,
    /// The host has no backend for the device type asked for.
    UnsupportedType,
}

/// The device types that can be asked for on a host.
pub open spec fn spec_types(os: HostOs) -> Seq<Seq<char>> {
    match os {
        HostOs::Linux => seq!["ata"@, "sat"@],
        HostOs::FreeBSD => seq!["ata"@],
        HostOs::Other => Seq::empty(),
    }
}

/// The backend for a device type and a host.
///
/// On Linux a device declared as `ata` is reached directly and every other
/// one through SCSI pass-through. On FreeBSD only the native backend
/// exists; it serves a device declared as `ata` and one whose type is left
/// open. Any other combination has no backend.
pub open spec fn spec_backend(device_type: Option<Seq<char>>, os: HostOs) -> Result<
    Backend,
    ConfigError,
> {
    match os {
        HostOs::Linux => if device_type == Some("ata"@) {
            Ok(Backend::Direct)
        } else {
            Ok(Backend::ScsiPassThrough)
        },
        HostOs::FreeBSD => if device_type is None || device_type == Some("ata"@) {
            Ok(Backend::Native)
        } else {
            Err(ConfigError::UnsupportedType)
        },
        HostOs::Other => Err(ConfigError::UnsupportedHost),
    }
}

/// Gives the device types that can be asked for on a host.
pub fn types(os: HostOs) -> (r: Vec<&'static str>)
    ensures
        r.deep_view() == spec_types(os),
{
    let mut types: Vec<&'static str> = Vec::new();
    match os {
        HostOs::Linux => {
            types.push("ata");
            types.push("sat");
        },
        HostOs::FreeBSD => {
            types.push("ata");
        },
        HostOs::Other => {},
    }
    assert(types.deep_view() =~= spec_types(os));
    types
}

/// Chooses the backend for a device type and a host, before any command is
/// issued.
pub fn select_backend(device_type: Option<&str>, os: HostOs) -> (r: Result<Backend, ConfigError>)
    ensures
        r == spec_backend(device_type.deep_view(), os),
{
    let is_ata = match device_type {
        Some(t) => same_text(t, "ata"),
        None => false,
    };
    match os {
        HostOs::Linux => {
            if is_ata {
                Ok(Backend::Direct)
            } else {
                Ok(Backend::ScsiPassThrough)
            }
        },
        HostOs::FreeBSD => {
            if is_ata || device_type.is_none() {
                Ok(Backend::Native)
            } else {
                Err(ConfigError::UnsupportedType)
            }
        },
        HostOs::Other => Err(ConfigError::UnsupportedHost),
    }
}

/// The health that a status block tells of: good where the two upper
/// address bytes came back as the status command carried them, bad where
/// they came back as `0xf4` and `0x2c`, and undecided in every other case.
pub open spec fn spec_smart_status(status: Seq<u8>) -> Option<bool> {
    if status[4] == spec_return_status().address_mid && status[5]
        == spec_return_status().address_high {
        Some(true)
    } else if status[4] == 0xf4 && status[5] == 0x2c {
        Some(false)
    } else {
        None
    }
}

/// Reads the health of the drive from the status block that the status
/// command returned. The block holds, in this order, the status, the error,
/// the count, the three address bytes from low to high, and the device
/// byte.
pub fn parse_smart_status(status: &[u8; 7]) -> (r: Option<bool>)
    ensures
        r == spec_smart_status(status@),
{
    let command = CommandDescriptor::return_status();
    if status[4] == command.address_mid && status[5] == command.address_high {
        Some(true)
    } else if status[4] == 0xf4 && status[5] == 0x2c {
        Some(false)
    } else {
        None
    }
}

} // verus!
