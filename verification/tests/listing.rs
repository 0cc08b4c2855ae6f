use systemd_dbus::collect_togglable_services;
use systemd_dbus::collect_togglable_sockets;
use systemd_dbus::collect_togglable_timers;
use systemd_dbus::list_unit_files;
use systemd_dbus::parse_message;
use systemd_dbus::SystemdUnit;
use systemd_dbus::UnitState;
use systemd_dbus::UnitType;

fn unit(name: &str, path: &str, utype: UnitType, state: UnitState) -> SystemdUnit {
    SystemdUnit { name: String::from(name), path: String::from(path), utype, state }
}

#[test]
fn classify_every_extension() {
    assert_eq!(UnitType::new("/etc/a.automount"), UnitType::Automount);
    assert_eq!(UnitType::new("/etc/a.device"), UnitType::Device);
    assert_eq!(UnitType::new("/etc/a.mount"), UnitType::Mount);
    assert_eq!(UnitType::new("/etc/a.path"), UnitType::Path);
    assert_eq!(UnitType::new("/etc/a.service"), UnitType::Service);
    assert_eq!(UnitType::new("/etc/a.snapshot"), UnitType::Snapshot);
    assert_eq!(UnitType::new("/etc/a.socket"), UnitType::Socket);
    assert_eq!(UnitType::new("/etc/a.target"), UnitType::Target);
    assert_eq!(UnitType::new("/etc/a.timer"), UnitType::Timer);
    assert_eq!(UnitType::new("/etc/a.conf"), UnitType::Unknown);
    assert_eq!(UnitType::new(""), UnitType::Unknown);
}

#[test]
fn classify_every_state_class() {
    assert_eq!(UnitState::new("enabled"), UnitState::Enabled);
    assert_eq!(UnitState::new("disabled"), UnitState::Disabled);
    assert_eq!(UnitState::new("static"), UnitState::Static);
    assert_eq!(UnitState::new("masked"), UnitState::Masked);
    assert_eq!(UnitState::new("generated"), UnitState::Unknown);
    assert_eq!(UnitState::new(""), UnitState::Unknown);
}

#[test]
fn classification_is_idempotent() {
    let path = "/etc/systemd/system/sshd.service";
    let token = "enabled";
    assert_eq!(UnitType::new(path), UnitType::new(path));
    assert_eq!(UnitState::new(token), UnitState::new(token));
}

#[test]
fn two_records_end_to_end() {
    let raw = "[Array([Struct([Str(\"/etc/systemd/system/sshd.service\"), Str(\"enabled\")]), Struct([Str(\"/etc/systemd/system/foo@.service\"), Str(\"disabled\")])], \"(ss)\")]";
    let units = list_unit_files(raw).unwrap();
    assert_eq!(units.len(), 2);
    assert_eq!(units[0].name, "foo@.service");
    assert_eq!(units[0].path, "/etc/systemd/system/foo@.service");
    assert_eq!(units[0].utype, UnitType::Service);
    assert_eq!(units[0].state, UnitState::Disabled);
    assert_eq!(units[1].name, "sshd.service");
    assert_eq!(units[1].path, "/etc/systemd/system/sshd.service");
    assert_eq!(units[1].utype, UnitType::Service);
    assert_eq!(units[1].state, UnitState::Enabled);
    let services = collect_togglable_services(&units);
    assert_eq!(services.len(), 1);
    assert_eq!(services[0].name, "sshd.service");
}

#[test]
fn sorting_is_case_insensitive() {
    let raw = "[Array([Struct([Str(\"/etc/B.service\"), Str(\"enabled\")]), Struct([Str(\"/etc/a.service\"), Str(\"enabled\")])], \"(ss)\")]";
    let units = list_unit_files(raw).unwrap();
    assert_eq!(units.len(), 2);
    assert_eq!(units[0].name, "a.service");
    assert_eq!(units[1].name, "B.service");
}

#[test]
fn unknown_extension_and_state_decode() {
    let raw = "[Array([Struct([Str(\"/etc/x/notes.conf\"), Str(\"generated\")])], \"(ss)\")]";
    let units = list_unit_files(raw).unwrap();
    assert_eq!(units.len(), 1);
    assert_eq!(units[0].name, "notes.conf");
    assert_eq!(units[0].utype, UnitType::Unknown);
    assert_eq!(units[0].state, UnitState::Unknown);
}

#[test]
fn truncated_reply_is_rejected() {
    let err = list_unit_files("short").unwrap_err();
    assert_eq!(err, "unit file listing reply is shorter than its framing");
    let err = parse_message("").unwrap_err();
    assert_eq!(err, "unit file listing reply is shorter than its framing");
}

#[test]
fn pathless_record_is_rejected() {
    let raw = "[Array([Struct([Str(\"/etc/systemd/system/\"), Str(\"enabled\")])], \"(ss)\")]";
    let err = list_unit_files(raw).unwrap_err();
    assert_eq!(err, "unit file listing reply holds a unit path with no file name");
}

#[test]
fn minimal_framing_decodes_to_nothing() {
    // exactly as long as the two framing widths together
    let raw = "0123456789abcdefg";
    assert_eq!(raw.len(), 17);
    let units = list_unit_files(raw).unwrap();
    assert_eq!(units.len(), 0);
}

#[test]
fn parse_message_sorts_before_returning() {
    let raw = "[Array([Struct([Str(\"/etc/B.service\"), Str(\"enabled\")]), Struct([Str(\"/etc/a.service\"), Str(\"enabled\")])], \"(ss)\")]";
    let units = parse_message(raw).unwrap();
    assert_eq!(units[0].name, "a.service");
    assert_eq!(units[1].name, "B.service");
}

#[test]
fn empty_listing_reply_decodes_to_nothing() {
    let raw = "[Array([], \"(ss)\")]";
    let units = parse_message(raw).unwrap();
    assert_eq!(units.len(), 0);
}

#[test]
fn unpaired_trailing_token_is_rejected() {
    // a rendering truncated after the first state token: the second
    // record's path token has no state token to pair with
    let raw = "[Array([Struct([Str(\"/etc/a.service\"), Str(\"enabled\")]), Struct([Str(\"/etc/b], \"(ss)\")]";
    let err = list_unit_files(raw).unwrap_err();
    assert_eq!(err, "unit file listing reply ends with an unpaired token");
}

#[test]
fn service_filter_keeps_exactly_the_togglable() {
    let units = vec![
        unit("a.service", "/etc/a.service", UnitType::Service, UnitState::Enabled),
        unit("b.service", "/etc/b.service", UnitType::Service, UnitState::Disabled),
        unit("c.service", "/etc/c.service", UnitType::Service, UnitState::Static),
        unit("d.service", "/etc/d.service", UnitType::Service, UnitState::Masked),
        unit("e.service", "/etc/e.service", UnitType::Service, UnitState::Unknown),
        unit("f@.service", "/etc/f@.service", UnitType::Service, UnitState::Enabled),
        unit("g.socket", "/etc/g.socket", UnitType::Socket, UnitState::Enabled),
    ];
    let services = collect_togglable_services(&units);
    assert_eq!(services.len(), 2);
    assert_eq!(services[0].name, "a.service");
    assert_eq!(services[1].name, "b.service");
}

#[test]
fn socket_filter_excludes_templates_and_other_types() {
    let units = vec![
        unit("a.socket", "/etc/a.socket", UnitType::Socket, UnitState::Disabled),
        unit("b@.socket", "/etc/b@.socket", UnitType::Socket, UnitState::Enabled),
        unit("c.service", "/etc/c.service", UnitType::Service, UnitState::Enabled),
        unit("d.socket", "/etc/d.socket", UnitType::Socket, UnitState::Static),
    ];
    let sockets = collect_togglable_sockets(&units);
    assert_eq!(sockets.len(), 1);
    assert_eq!(sockets[0].name, "a.socket");
}

#[test]
fn timer_filter_excludes_templates_and_other_types() {
    let units = vec![
        unit("a.timer", "/etc/a.timer", UnitType::Timer, UnitState::Enabled),
        unit("b@.timer", "/etc/b@.timer", UnitType::Timer, UnitState::Disabled),
        unit("c.mount", "/etc/c.mount", UnitType::Mount, UnitState::Enabled),
    ];
    let timers = collect_togglable_timers(&units);
    assert_eq!(timers.len(), 1);
    assert_eq!(timers[0].name, "a.timer");
}

#[test]
fn filter_keeps_input_order() {
    let units = vec![
        unit("z.service", "/etc/z.service", UnitType::Service, UnitState::Enabled),
        unit("m.service", "/etc/m.service", UnitType::Service, UnitState::Disabled),
        unit("a.service", "/etc/a.service", UnitType::Service, UnitState::Enabled),
    ];
    let services = collect_togglable_services(&units);
    assert_eq!(services.len(), 3);
    assert_eq!(services[0].name, "z.service");
    assert_eq!(services[1].name, "m.service");
    assert_eq!(services[2].name, "a.service");
}
