use systemd_dbus::BusItem;
use systemd_dbus::Dbus;
use systemd_dbus::SystemdUnit;
use systemd_dbus::UnitState;
use systemd_dbus::UnitType;

fn unit(name: &str, path: &str, utype: UnitType, state: UnitState) -> SystemdUnit {
    SystemdUnit { name: String::from(name), path: String::from(path), utype, state }
}

fn sshd() -> SystemdUnit {
    unit(
        "sshd.service",
        "/etc/systemd/system/sshd.service",
        UnitType::Service,
        UnitState::Disabled,
    )
}

#[test]
fn enable_discriminates_the_already_enabled_shape() {
    let reply = vec![BusItem::Bool(true), BusItem::Arr(vec![])];
    let msg = sshd().enable(Ok(reply)).unwrap();
    assert_eq!(msg, "sshd.service already enabled");
}

#[test]
fn enable_reports_fresh_enablement_on_any_other_shape() {
    let changed = vec![
        BusItem::Bool(true),
        BusItem::Arr(vec![BusItem::Str(String::from("symlink"))]),
    ];
    assert_eq!(sshd().enable(Ok(changed)).unwrap(), "sshd.service has been enabled");
    let false_flag = vec![BusItem::Bool(false), BusItem::Arr(vec![])];
    assert_eq!(sshd().enable(Ok(false_flag)).unwrap(), "sshd.service has been enabled");
    assert_eq!(sshd().enable(Ok(vec![])).unwrap(), "sshd.service has been enabled");
}

#[test]
fn enable_embeds_name_and_diagnostic_on_failure() {
    let err = sshd().enable(Err(String::from("Access denied"))).unwrap_err();
    assert_eq!(err, "Error enabling sshd.service:\nAccess denied");
}

#[test]
fn disable_discriminates_the_already_disabled_shape() {
    let reply = vec![BusItem::Arr(vec![])];
    let msg = sshd().disable(Ok(reply)).unwrap();
    assert_eq!(msg, "sshd.service is already disabled");
}

#[test]
fn disable_reports_fresh_disablement_on_any_other_shape() {
    let changed = vec![BusItem::Arr(vec![BusItem::Str(String::from("unlink"))])];
    assert_eq!(sshd().disable(Ok(changed)).unwrap(), "sshd.service has been disabled");
    assert_eq!(sshd().disable(Ok(vec![])).unwrap(), "sshd.service has been disabled");
}

#[test]
fn disable_embeds_name_and_diagnostic_on_failure() {
    let err = sshd().disable(Err(String::from("No such unit"))).unwrap_err();
    assert_eq!(err, "Error disabling sshd.service:\nNo such unit");
}

#[test]
fn start_reports_success_on_any_reply() {
    let reply = vec![BusItem::Str(String::from("/org/freedesktop/systemd1/job/1"))];
    assert_eq!(sshd().start(Ok(reply)).unwrap(), "sshd.service successfully started");
}

#[test]
fn start_embeds_name_and_diagnostic_on_failure() {
    let err = sshd().start(Err(String::from("timed out"))).unwrap_err();
    assert_eq!(err, "sshd.service failed to start:\ntimed out");
}

#[test]
fn stop_reports_success_on_any_reply() {
    let reply = vec![BusItem::Str(String::from("/org/freedesktop/systemd1/job/2"))];
    assert_eq!(sshd().stop(Ok(reply)).unwrap(), "sshd.service successfully stopped");
}

#[test]
fn stop_embeds_name_and_diagnostic_on_failure() {
    let err = sshd().stop(Err(String::from("conflicting job"))).unwrap_err();
    assert_eq!(err, "sshd.service failed to stop:\nconflicting job");
}

#[test]
fn is_enabled_reads_the_matching_record() {
    let me = sshd();
    let listing = vec![
        unit("a.service", "/etc/a.service", UnitType::Service, UnitState::Enabled),
        unit(
            "sshd.service",
            "/etc/systemd/system/sshd.service",
            UnitType::Service,
            UnitState::Enabled,
        ),
    ];
    assert!(me.is_enabled(&listing));
}

#[test]
fn is_enabled_is_false_when_disabled_or_absent() {
    let me = sshd();
    let disabled = vec![
        unit(
            "sshd.service",
            "/etc/systemd/system/sshd.service",
            UnitType::Service,
            UnitState::Disabled,
        ),
    ];
    assert!(!me.is_enabled(&disabled));
    let absent = vec![unit("a.service", "/etc/a.service", UnitType::Service, UnitState::Enabled)];
    assert!(!me.is_enabled(&absent));
    assert!(!me.is_enabled(&vec![]));
}

#[test]
fn is_enabled_takes_the_first_matching_record() {
    let me = sshd();
    let listing = vec![
        unit(
            "sshd.service",
            "/etc/systemd/system/sshd.service",
            UnitType::Service,
            UnitState::Disabled,
        ),
        unit(
            "sshd.service",
            "/etc/systemd/system/sshd.service",
            UnitType::Service,
            UnitState::Enabled,
        ),
    ];
    assert!(!me.is_enabled(&listing));
}
