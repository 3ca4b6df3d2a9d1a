use hdd::query::{
    notice_text, parse_smart_status, plan, select_backend, types, when_smart_enabled, Action, Backend, Command,
    CommandDescriptor, ConfigError, Event, Gate, HostOs, SMARTFeature, Section, Sections,
    Sequencer, Shape, State, Ternary,
};

fn run(sections: Sections, smart: Ternary) -> Vec<Action> {
    let mut seq = Sequencer::new(sections);
    let mut actions = vec![];
    let mut event = Event::Begin;
    while let Some(action) = seq.step(event) {
        actions.push(action);
        event = match action {
            Action::Execute(c) if c.command == Command::Identify => Event::Identified(smart),
            _ => Event::Completed,
        };
    }
    assert_eq!(seq.state, State::Finished);
    actions
}

fn commands(actions: &[Action]) -> usize {
    actions.iter().filter(|a| matches!(a, Action::Execute(_))).count()
}

#[test]
fn disabled_health_gives_notice_and_no_command() {
    let sections = Sections::new(false, false, true, false);
    let after = plan(sections, Ternary::Disabled);
    assert_eq!(after, vec![Action::Notice(Section::Health, Ternary::Disabled)]);
    assert_eq!(commands(&after), 0);
    assert_eq!(
        notice_text(Section::Health, Ternary::Disabled),
        Some("S.M.A.R.T. is disabled, cannot show health status\n".to_string())
    );
    let actions = run(sections, Ternary::Disabled);
    assert_eq!(
        actions,
        vec![
            Action::Execute(CommandDescriptor::identify()),
            Action::Notice(Section::Health, Ternary::Disabled),
        ]
    );
}

#[test]
fn unsupported_and_disabled_are_told_apart() {
    assert_eq!(
        when_smart_enabled(&Ternary::Unsupported, "attributes"),
        Gate::Closed("S.M.A.R.T. is not supported, cannot show attributes\n".to_string())
    );
    assert_eq!(
        when_smart_enabled(&Ternary::Disabled, "attributes"),
        Gate::Closed("S.M.A.R.T. is disabled, cannot show attributes\n".to_string())
    );
    assert_eq!(when_smart_enabled(&Ternary::Enabled, "attributes"), Gate::Open);
    assert_eq!(notice_text(Section::Attributes, Ternary::Enabled), None);
    assert_eq!(notice_text(Section::Info, Ternary::Disabled), None);
    assert_eq!(
        notice_text(Section::Attributes, Ternary::Unsupported),
        Some("S.M.A.R.T. is not supported, cannot show attributes\n".to_string())
    );
}

#[test]
fn full_report_on_enabled_device() {
    let actions = run(Sections::new(false, false, false, true), Ternary::Enabled);
    assert_eq!(
        actions,
        vec![
            Action::Execute(CommandDescriptor::identify()),
            Action::Present(Section::Info),
            Action::Execute(CommandDescriptor::return_status()),
            Action::Present(Section::Health),
            Action::Execute(CommandDescriptor::read_data(SMARTFeature::ReadValues)),
            Action::Execute(CommandDescriptor::read_data(SMARTFeature::ReadThresholds)),
            Action::Present(Section::Attributes),
        ]
    );
}

#[test]
fn full_report_on_unsupported_device() {
    let actions = run(Sections::new(true, true, true, false), Ternary::Unsupported);
    assert_eq!(
        actions,
        vec![
            Action::Execute(CommandDescriptor::identify()),
            Action::Present(Section::Info),
            Action::Notice(Section::Health, Ternary::Unsupported),
            Action::Notice(Section::Attributes, Ternary::Unsupported),
        ]
    );
    assert_eq!(commands(&actions), 1);
}

#[test]
fn nothing_asked_nothing_done() {
    let sections = Sections::new(false, false, false, false);
    assert!(!sections.any());
    assert_eq!(run(sections, Ternary::Enabled), vec![]);
}

#[test]
fn identification_comes_first_for_every_section() {
    for sections in [
        Sections::new(true, false, false, false),
        Sections::new(false, true, false, false),
        Sections::new(false, false, true, false),
    ] {
        for smart in [Ternary::Unsupported, Ternary::Disabled, Ternary::Enabled] {
            let actions = run(sections, smart);
            assert_eq!(actions[0], Action::Execute(CommandDescriptor::identify()));
            let later = commands(&actions[1..]);
            if smart != Ternary::Enabled {
                assert_eq!(later, 0);
            }
        }
    }
    assert_eq!(
        run(Sections::new(false, true, false, false), Ternary::Enabled).len(),
        4
    );
}

#[test]
fn sections_from_flags() {
    assert_eq!(
        Sections::new(true, false, false, false),
        Sections { info: true, health: false, attrs: false }
    );
    assert_eq!(
        Sections::new(false, true, false, false),
        Sections { info: false, health: false, attrs: true }
    );
    assert_eq!(
        Sections::new(false, false, true, false),
        Sections { info: false, health: true, attrs: false }
    );
    assert_eq!(
        Sections::new(false, false, false, true),
        Sections { info: true, health: true, attrs: true }
    );
}

#[test]
fn failure_aborts_the_rest() {
    let mut seq = Sequencer::new(Sections::new(true, true, true, false));
    assert_eq!(seq.step(Event::Begin), Some(Action::Execute(CommandDescriptor::identify())));
    assert_eq!(seq.step(Event::Identified(Ternary::Enabled)), Some(Action::Present(Section::Info)));
    assert_eq!(
        seq.step(Event::Completed),
        Some(Action::Execute(CommandDescriptor::return_status()))
    );
    assert_eq!(seq.step(Event::Failed), None);
    assert!(seq.aborted());
    assert_eq!(seq.step(Event::Completed), None);
    assert_eq!(seq.step(Event::Begin), None);
    assert_eq!(seq.step(Event::Identified(Ternary::Enabled)), None);
    assert!(seq.aborted());
}

#[test]
fn failed_identification_aborts() {
    let mut seq = Sequencer::new(Sections::new(true, false, false, false));
    assert!(seq.step(Event::Begin).is_some());
    assert_eq!(seq.step(Event::Failed), None);
    assert!(seq.aborted());
}

#[test]
fn event_out_of_turn_aborts() {
    let mut seq = Sequencer::new(Sections::new(true, false, false, false));
    assert_eq!(seq.step(Event::Completed), None);
    assert!(seq.aborted());
    let mut seq = Sequencer::new(Sections::new(true, false, false, false));
    assert!(seq.step(Event::Begin).is_some());
    assert_eq!(seq.step(Event::Completed), None);
    assert!(seq.aborted());
    let mut seq = Sequencer::new(Sections::new(false, false, false, false));
    assert_eq!(seq.step(Event::Begin), None);
    assert!(!seq.aborted());
    assert_eq!(seq.step(Event::Failed), None);
    assert_eq!(seq.state, State::Finished);
}

#[test]
fn command_descriptors() {
    let id = CommandDescriptor::identify();
    assert_eq!(id.command, Command::Identify);
    assert_eq!(id.shape, Shape::Data);
    assert_eq!((id.feature, id.count, id.address_low), (0, 1, 1));
    let values = CommandDescriptor::read_data(SMARTFeature::ReadValues);
    assert_eq!(values.command, Command::SMART);
    assert_eq!(values.shape, Shape::Data);
    assert_eq!((values.feature, values.count, values.address_low), (0xd0, 1, 0));
    let thresholds = CommandDescriptor::read_data(SMARTFeature::ReadThresholds);
    assert_eq!((thresholds.feature, thresholds.count, thresholds.address_low), (0xd1, 1, 0));
    let status = CommandDescriptor::return_status();
    assert_eq!(status.command, Command::SMART);
    assert_eq!(status.shape, Shape::Status);
    assert_eq!(
        (
            status.feature,
            status.count,
            status.address_low,
            status.address_mid,
            status.address_high,
            status.device
        ),
        (0xda, 0, 0, 0x4f, 0xc2, 0)
    );
    assert_eq!(SMARTFeature::ReturnStatus.code(), 0xda);
}

#[test]
fn backend_by_type_and_host() {
    assert_eq!(select_backend(Some("ata"), HostOs::Linux), Ok(Backend::Direct));
    assert_eq!(select_backend(Some("sat"), HostOs::Linux), Ok(Backend::ScsiPassThrough));
    assert_eq!(select_backend(None, HostOs::Linux), Ok(Backend::ScsiPassThrough));
    assert_eq!(select_backend(Some("/dev/sda"), HostOs::Linux), Ok(Backend::ScsiPassThrough));
    assert_eq!(select_backend(Some("ata"), HostOs::FreeBSD), Ok(Backend::Native));
    assert_eq!(select_backend(None, HostOs::FreeBSD), Ok(Backend::Native));
    assert_eq!(select_backend(Some("sat"), HostOs::FreeBSD), Err(ConfigError::UnsupportedType));
    assert_eq!(select_backend(Some("ata"), HostOs::Other), Err(ConfigError::UnsupportedHost));
    assert_eq!(select_backend(None, HostOs::Other), Err(ConfigError::UnsupportedHost));
}

#[test]
fn device_types_by_host() {
    assert_eq!(types(HostOs::Linux), vec!["ata", "sat"]);
    assert_eq!(types(HostOs::FreeBSD), vec!["ata"]);
    assert_eq!(types(HostOs::Other), Vec::<&str>::new());
}

#[test]
fn health_from_status_block() {
    assert_eq!(parse_smart_status(&[0x50, 0, 0, 0, 0x4f, 0xc2, 0]), Some(true));
    assert_eq!(parse_smart_status(&[0x50, 0, 0, 0, 0xf4, 0x2c, 0]), Some(false));
    assert_eq!(parse_smart_status(&[0x50, 0, 0, 0, 0x4f, 0x2c, 0]), None);
    assert_eq!(parse_smart_status(&[0x50, 0, 0, 0, 0xf4, 0xc2, 0]), None);
    assert_eq!(parse_smart_status(&[0; 7]), None);
    assert_eq!(parse_smart_status(&[0x4f, 0xc2, 0x4f, 0xc2, 0, 0, 0x4f]), None);
}
