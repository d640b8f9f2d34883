//! Host power actions: their names and the commands that carry them out.

use crate::text::{string_from, texts};
use vstd::prelude::*;

verus! {

/// A host power action.
#[derive(Clone, Copy, Debug, PartialEq, Eq, Structural)]
pub enum PowerAction {
    Shutdown,
    Reboot,
}

/// The name of an action.
pub open spec fn action_name(a: PowerAction) -> Seq<char> {
    match a {
        PowerAction::Shutdown => "shutdown"@,
        PowerAction::Reboot => "reboot"@,
    }
}

/// A program to run with its arguments.
#[derive(Clone, Debug)]
pub struct HostCommand {
    pub program: String,
    pub args: Vec<String>,
}

/// A command as plain text: the program and its arguments.
pub open spec fn command_text(c: HostCommand) -> (Seq<char>, Seq<Seq<char>>) {
    (c.program@, texts(c.args@))
}

/// Commands as plain text.
pub open spec fn commands_text(v: Seq<HostCommand>) -> Seq<(Seq<char>, Seq<Seq<char>>)> {
    v.map_values(|c: HostCommand| command_text(c))
}

/// The login1 method that performs `a`: `PowerOff` or `Reboot`.
pub open spec fn login1_method(a: PowerAction) -> Seq<char> {
    match a {
        PowerAction::Shutdown => "PowerOff"@,
        PowerAction::Reboot => "Reboot"@,
    }
}

/// The verb of `a` for systemctl and the stand-alone program: `poweroff`
/// or `reboot`.
pub open spec fn action_verb(a: PowerAction) -> Seq<char> {
    match a {
        PowerAction::Shutdown => "poweroff"@,
        PowerAction::Reboot => "reboot"@,
    }
}

/// The flag of `shutdown` that selects `a`: `-h` or `-r`.
pub open spec fn shutdown_flag(a: PowerAction) -> Seq<char> {
    match a {
        PowerAction::Shutdown => "-h"@,
        PowerAction::Reboot => "-r"@,
    }
}

/// The commands tried on Linux, in order, after the SysRq trigger: login1
/// over the host's D-Bus socket (at its two usual paths), systemctl and
/// shutdown in the host's namespaces, systemctl, shutdown (by full path and
/// by name), the stand-alone program, and a privileged container.
pub open spec fn linux_fallbacks(a: PowerAction) -> Seq<(Seq<char>, Seq<Seq<char>>)> {
    let m = login1_method(a);
    let v = action_verb(a);
    let f = shutdown_flag(a);
    seq![
        ("busctl"@, seq![
            "--address=unix:path=/var/run/dbus/system_bus_socket"@,
            "call"@,
            "org.freedesktop.login1"@,
            "/org/freedesktop/login1"@,
            "org.freedesktop.login1.Manager"@,
            m,
            "b"@,
            "true"@,
        ]),
        ("busctl"@, seq![
            "--address=unix:path=/host/run/dbus/system_bus_socket"@,
            "call"@,
            "org.freedesktop.login1"@,
            "/org/freedesktop/login1"@,
            "org.freedesktop.login1.Manager"@,
            m,
            "b"@,
            "true"@,
        ]),
        ("nsenter"@, seq!["-t"@, "1"@, "-m"@, "-u"@, "-i"@, "-n"@, "-p"@, "systemctl"@, v]),
        ("nsenter"@, seq![
            "-t"@,
            "1"@,
            "-m"@,
            "-u"@,
            "-i"@,
            "-n"@,
            "-p"@,
            "/sbin/shutdown"@,
            f,
            "now"@,
        ]),
        ("systemctl"@, seq![v]),
        ("/sbin/shutdown"@, seq![f, "now"@]),
        ("shutdown"@, seq![f, "now"@]),
        (v, seq![]),
        ("docker"@, seq!["run"@, "--rm"@, "--privileged"@, "--pid=host"@, "alpine"@, v]),
    ]
}

/// The words that belong to the other action: a reboot must not power off
/// (`PowerOff`, `poweroff`, `-h`) and a shutdown must not reboot (`Reboot`,
/// `reboot`, `-r`).
pub open spec fn other_action_word(a: PowerAction, w: Seq<char>) -> bool {
    match a {
        PowerAction::Reboot => w == "PowerOff"@ || w == "poweroff"@ || w == "-h"@,
        PowerAction::Shutdown => w == "Reboot"@ || w == "reboot"@ || w == "-r"@,
    }
}

proof fn lemma_words_differ(a: PowerAction)
    ensures
        !other_action_word(a, "busctl"@),
        !other_action_word(a, "--address=unix:path=/var/run/dbus/system_bus_socket"@),
        !other_action_word(a, "--address=unix:path=/host/run/dbus/system_bus_socket"@),
        !other_action_word(a, "call"@),
        !other_action_word(a, "org.freedesktop.login1"@),
        !other_action_word(a, "/org/freedesktop/login1"@),
        !other_action_word(a, "org.freedesktop.login1.Manager"@),
        !other_action_word(a, "b"@),
        !other_action_word(a, "true"@),
        !other_action_word(a, "nsenter"@),
        !other_action_word(a, "-t"@),
        !other_action_word(a, "1"@),
        !other_action_word(a, "-m"@),
        !other_action_word(a, "-u"@),
        !other_action_word(a, "-i"@),
        !other_action_word(a, "-n"@),
        !other_action_word(a, "-p"@),
        !other_action_word(a, "systemctl"@),
        !other_action_word(a, "/sbin/shutdown"@),
        !other_action_word(a, "now"@),
        !other_action_word(a, "shutdown"@),
        !other_action_word(a, "docker"@),
        !other_action_word(a, "run"@),
        !other_action_word(a, "--rm"@),
        !other_action_word(a, "--privileged"@),
        !other_action_word(a, "--pid=host"@),
        !other_action_word(a, "alpine"@),
        !other_action_word(a, login1_method(a)),
        !other_action_word(a, action_verb(a)),
        !other_action_word(a, shutdown_flag(a)),
{
    reveal_strlit("PowerOff");
    reveal_strlit("poweroff");
    reveal_strlit("-h");
    reveal_strlit("Reboot");
    reveal_strlit("reboot");
    reveal_strlit("-r");
    reveal_strlit("busctl");
    reveal_strlit("--address=unix:path=/var/run/dbus/system_bus_socket");
    reveal_strlit("--address=unix:path=/host/run/dbus/system_bus_socket");
    reveal_strlit("call");
    reveal_strlit("org.freedesktop.login1");
    reveal_strlit("/org/freedesktop/login1");
    reveal_strlit("org.freedesktop.login1.Manager");
    reveal_strlit("b");
    reveal_strlit("true");
    reveal_strlit("nsenter");
    reveal_strlit("-t");
    reveal_strlit("1");
    reveal_strlit("-m");
    reveal_strlit("-u");
    reveal_strlit("-i");
    reveal_strlit("-n");
    reveal_strlit("-p");
    reveal_strlit("systemctl");
    reveal_strlit("/sbin/shutdown");
    reveal_strlit("now");
    reveal_strlit("shutdown");
    reveal_strlit("docker");
    reveal_strlit("run");
    reveal_strlit("--rm");
    reveal_strlit("--privileged");
    reveal_strlit("--pid=host");
    reveal_strlit("alpine");
    assert("busctl"@[0] != "Reboot"@[0] && "busctl"@[0] != "reboot"@[0]);
    assert("docker"@[0] != "Reboot"@[0] && "docker"@[0] != "reboot"@[0]);
    assert("alpine"@[0] != "Reboot"@[0] && "alpine"@[0] != "reboot"@[0]);
    assert("org.freedesktop.login1"@[0] != "Reboot"@[0] && "org.freedesktop.login1"@[0]
        != "reboot"@[0] && "org.freedesktop.login1"@[0] != "PowerOff"@[0]
        && "org.freedesktop.login1"@[0] != "poweroff"@[0] && "org.freedesktop.login1"@[0]
        != "-h"@[0] && "org.freedesktop.login1"@[0] != "-r"@[0]);
    assert("org.freedesktop.login1.Manager"@[0] != "Reboot"@[0]
        && "org.freedesktop.login1.Manager"@[0] != "reboot"@[0]
        && "org.freedesktop.login1.Manager"@[0] != "PowerOff"@[0]
        && "org.freedesktop.login1.Manager"@[0] != "poweroff"@[0]
        && "org.freedesktop.login1.Manager"@[0] != "-h"@[0]
        && "org.freedesktop.login1.Manager"@[0] != "-r"@[0]);
    assert("run"@[0] != "Reboot"@[0] && "run"@[1] != "reboot"@[1]);
    assert("Reboot"@[0] != "reboot"@[0]);
    assert("PowerOff"@[0] != "poweroff"@[0]);
    assert("-t"@[1] != "-h"@[1] && "-t"@[1] != "-r"@[1]);
    assert("-m"@[1] != "-h"@[1] && "-m"@[1] != "-r"@[1]);
    assert("-u"@[1] != "-h"@[1] && "-u"@[1] != "-r"@[1]);
    assert("-i"@[1] != "-h"@[1] && "-i"@[1] != "-r"@[1]);
    assert("-n"@[1] != "-h"@[1] && "-n"@[1] != "-r"@[1]);
    assert("-p"@[1] != "-h"@[1] && "-p"@[1] != "-r"@[1]);
    assert("-h"@[1] != "-r"@[1]);
}

/// Every command tried for an action carries out that action and not the
/// other: neither the program nor any argument is a word of the other
/// action, and both login1 calls ask for the requested action (`Reboot` for
/// a reboot, `PowerOff` for a shutdown).
pub proof fn law_commands_carry_out_the_requested_action(a: PowerAction)
    ensures
        forall|i: int|
            0 <= i < linux_fallbacks(a).len() ==> !other_action_word(
                a,
                #[trigger] linux_fallbacks(a)[i].0,
            ),
        forall|i: int, j: int|
            0 <= i < linux_fallbacks(a).len() && 0 <= j < linux_fallbacks(a)[i].1.len()
                ==> !other_action_word(a, #[trigger] linux_fallbacks(a)[i].1[j]),
        linux_fallbacks(a)[0].1[5] == (match a {
            PowerAction::Shutdown => "PowerOff"@,
            PowerAction::Reboot => "Reboot"@,
        }),
        linux_fallbacks(a)[1].1[5] == (match a {
            PowerAction::Shutdown => "PowerOff"@,
            PowerAction::Reboot => "Reboot"@,
        }),
{
    lemma_words_differ(a);
    let c = linux_fallbacks(a);
    assert forall|i: int, j: int| 0 <= i < c.len() && 0 <= j < c[i].1.len() implies !other_action_word(
        a,
        #[trigger] c[i].1[j],
    ) by {
        if i == 0 {
        } else if i == 1 {
        } else if i == 2 {
        } else if i == 3 {
        } else if i == 4 {
        } else if i == 5 {
        } else if i == 6 {
        } else if i == 7 {
        } else {
        }
    }
}

/// A command from a program and argument texts.
fn command(program: &str, args: &[&str]) -> (c: HostCommand)
    ensures
        c.program@ == program@,
        texts(c.args@) == args@.map_values(|s: &str| s@),
{
    let mut v: Vec<String> = Vec::new();
    for i in 0..args.len()
        invariant
            texts(v@) == args@.take(i as int).map_values(|s: &str| s@),
    {
        let ghost before = v@;
        v.push(string_from(args[i]));
        proof {
            assert(texts(v@) =~= texts(before).push(args@[i as int]@));
            assert(args@.take(i + 1).map_values(|s: &str| s@) =~= args@.take(i as int).map_values(
                |s: &str| s@,
            ).push(args@[i as int]@));
        }
    }
    proof {
        assert(args@.take(args@.len() as int) =~= args@);
    }
    HostCommand { program: string_from(program), args: v }
}

impl PowerAction {
    /// The name of the action: `shutdown` or `reboot`.
    pub fn name(&self) -> (s: &'static str)
        ensures
            s@ == action_name(*self),
    {
        match self {
            PowerAction::Shutdown => "shutdown",
            PowerAction::Reboot => "reboot",
        }
    }

    /// The byte written to the kernel's SysRq trigger: `o` (power off) or
    /// `b` (reboot).
    pub fn sysrq_command(&self) -> (b: u8)
        ensures
            b == (match *self {
                PowerAction::Shutdown => 0x6fu8,
                PowerAction::Reboot => 0x62u8,
            }),
    {
        match self {
            PowerAction::Shutdown => 0x6f,
            PowerAction::Reboot => 0x62,
        }
    }

    /// The commands tried on Linux when the SysRq trigger fails, in order.
    pub fn linux_commands(&self) -> (v: Vec<HostCommand>)
        ensures
            commands_text(v@) == linux_fallbacks(*self),
    {
        let (m, verb, flag): (&str, &str, &str) = match self {
            PowerAction::Shutdown => ("PowerOff", "poweroff", "-h"),
            PowerAction::Reboot => ("Reboot", "reboot", "-r"),
        };
        let ghost spec = linux_fallbacks(*self);
        let c0 = command(
            "busctl",
            &[
                "--address=unix:path=/var/run/dbus/system_bus_socket",
                "call",
                "org.freedesktop.login1",
                "/org/freedesktop/login1",
                "org.freedesktop.login1.Manager",
                m,
                "b",
                "true",
            ],
        );
        assert(texts(c0.args@) =~= spec[0].1);
        let c1 = command(
            "busctl",
            &[
                "--address=unix:path=/host/run/dbus/system_bus_socket",
                "call",
                "org.freedesktop.login1",
                "/org/freedesktop/login1",
                "org.freedesktop.login1.Manager",
                m,
                "b",
                "true",
            ],
        );
        assert(texts(c1.args@) =~= spec[1].1);
        let c2 = command("nsenter", &["-t", "1", "-m", "-u", "-i", "-n", "-p", "systemctl", verb]);
        assert(texts(c2.args@) =~= spec[2].1);
        let c3 = command(
            "nsenter",
            &["-t", "1", "-m", "-u", "-i", "-n", "-p", "/sbin/shutdown", flag, "now"],
        );
        assert(texts(c3.args@) =~= spec[3].1);
        let c4 = command("systemctl", &[verb]);
        assert(texts(c4.args@) =~= spec[4].1);
        let c5 = command("/sbin/shutdown", &[flag, "now"]);
        assert(texts(c5.args@) =~= spec[5].1);
        let c6 = command("shutdown", &[flag, "now"]);
        assert(texts(c6.args@) =~= spec[6].1);
        let c7 = command(verb, &[]);
        assert(texts(c7.args@) =~= spec[7].1);
        let c8 = command("docker", &["run", "--rm", "--privileged", "--pid=host", "alpine", verb]);
        assert(texts(c8.args@) =~= spec[8].1);
        let mut v: Vec<HostCommand> = Vec::new();
        v.push(c0);
        v.push(c1);
        v.push(c2);
        v.push(c3);
        v.push(c4);
        v.push(c5);
        v.push(c6);
        v.push(c7);
        v.push(c8);
        proof {
            assert(commands_text(v@) =~= linux_fallbacks(*self));
        }
        v
    }

    /// The command that carries out the action on Windows:
    /// `shutdown /s /t 0` or `shutdown /r /t 0`.
    pub fn windows_command(&self) -> (c: HostCommand)
        ensures
            command_text(c) == ("shutdown"@, seq![
                match *self {
                    PowerAction::Shutdown => "/s"@,
                    PowerAction::Reboot => "/r"@,
                },
                "/t"@,
                "0"@,
            ]),
    {
        let flag = match self {
            PowerAction::Shutdown => "/s",
            PowerAction::Reboot => "/r",
        };
        let c = command("shutdown", &[flag, "/t", "0"]);
        proof {
            assert(texts(c.args@) =~= seq![flag@, "/t"@, "0"@]);
        }
        c
    }
}

/// The kernel SysRq trigger files tried in order: the host's own and the
/// host's as mounted into a container.
pub fn sysrq_trigger_paths() -> (v: Vec<String>)
    ensures
        texts(v@) == seq!["/proc/sysrq-trigger"@, "/host/proc/sysrq-trigger"@],
{
    let mut v: Vec<String> = Vec::new();
    v.push(string_from("/proc/sysrq-trigger"));
    v.push(string_from("/host/proc/sysrq-trigger"));
    assert(texts(v@) =~= seq!["/proc/sysrq-trigger"@, "/host/proc/sysrq-trigger"@]);
    v
}

} // verus!
