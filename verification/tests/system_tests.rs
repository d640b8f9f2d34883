use shao::system::{sysrq_trigger_paths, PowerAction};

#[test]
fn test_power_action_names() {
    assert_eq!(PowerAction::Shutdown.name(), "shutdown");
    assert_eq!(PowerAction::Reboot.name(), "reboot");
}

#[test]
fn sysrq_bytes() {
    assert_eq!(PowerAction::Shutdown.sysrq_command(), b'o');
    assert_eq!(PowerAction::Reboot.sysrq_command(), b'b');
    assert_eq!(sysrq_trigger_paths(), vec!["/proc/sysrq-trigger", "/host/proc/sysrq-trigger"]);
}

#[test]
fn linux_commands_in_order() {
    let cmds = PowerAction::Shutdown.linux_commands();
    assert_eq!(cmds.len(), 9);
    assert_eq!(cmds[0].program, "busctl");
    assert_eq!(cmds[0].args[0], "--address=unix:path=/var/run/dbus/system_bus_socket");
    assert_eq!(cmds[0].args[5], "PowerOff");
    assert_eq!(cmds[3].args, vec!["-t", "1", "-m", "-u", "-i", "-n", "-p", "/sbin/shutdown", "-h", "now"]);
    assert_eq!(cmds[7].program, "poweroff");
    assert!(cmds[7].args.is_empty());
    assert_eq!(cmds[8].args, vec!["run", "--rm", "--privileged", "--pid=host", "alpine", "poweroff"]);
    let r = PowerAction::Reboot.linux_commands();
    assert_eq!(r[1].args[5], "Reboot");
    assert_eq!(r[4].args, vec!["reboot"]);
    assert_eq!(r[6].program, "shutdown");
    assert_eq!(r[6].args, vec!["-r", "now"]);
}

#[test]
fn windows_commands() {
    let c = PowerAction::Shutdown.windows_command();
    assert_eq!(c.program, "shutdown");
    assert_eq!(c.args, vec!["/s", "/t", "0"]);
    assert_eq!(PowerAction::Reboot.windows_command().args[0], "/r");
}
