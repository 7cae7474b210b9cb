//! The program as a service of the system.

use crate::paths;
use crate::text;
use vstd::prelude::*;
use vstd::string::*;

verus! {

/// The name of the service.
pub const SERVICE_NAME: &'static str = "meow";

/// The label of the agent on macOS.
pub const LAUNCHD_LABEL: &'static str = "com.meow.proxy";

/// The directory that a configuration file is in. A file that is in none is in the
/// root.
pub open spec fn directory_of(path: Seq<char>) -> Seq<char> {
    match paths::parent(path) {
        Some(d) => if d.len() > 0 {
            d
        } else {
            "/"@
        },
        None => "/"@,
    }
}

/// The text of a unit for systemd: the service runs the program on the file, in the
/// directory of the file, and can write there and nowhere else.
pub open spec fn unit_text(exe: Seq<char>, path: Seq<char>) -> Seq<char> {
    let dir = directory_of(path);
    "[Unit]\nDescription=meow proxy service\nAfter=network-online.target\nWants=network-online.target\n\n[Service]\nType=simple\nExecStart="@
        + exe + " -f "@ + path + "\nWorkingDirectory="@ + dir
        + "\nRestart=on-failure\nRestartSec=5\nLimitNOFILE=1048576\nProtectSystem=strict\nReadWritePaths="@
        + dir + "\n\n[Install]\nWantedBy=multi-user.target\n"@
}

/// The directory that a configuration file is in.
fn find_directory(path: &str) -> (d: String)
    ensures
        d@ == directory_of(path@),
{
    match paths::parent_of(path) {
        Some(d) => if d.as_str().unicode_len() > 0 {
            d
        } else {
            "/".to_owned()
        },
        None => "/".to_owned(),
    }
}

/// The text of a unit for systemd.
pub fn generate_systemd_unit(exe_path: &str, config_path: &str) -> (s: String)
    ensures
        s@ == unit_text(exe_path@, config_path@),
{
    let dir = find_directory(config_path);
    "[Unit]\nDescription=meow proxy service\nAfter=network-online.target\nWants=network-online.target\n\n[Service]\nType=simple\nExecStart=".to_owned().concat(
    exe_path).concat(" -f ").concat(config_path).concat("\nWorkingDirectory=").concat(
        dir.as_str(),
    ).concat(
        "\nRestart=on-failure\nRestartSec=5\nLimitNOFILE=1048576\nProtectSystem=strict\nReadWritePaths=",
    ).concat(dir.as_str()).concat("\n\n[Install]\nWantedBy=multi-user.target\n")
}

/// The place of the unit.
pub fn unit_path() -> (s: String)
    ensures
        s@ == "/etc/systemd/system/"@ + SERVICE_NAME@ + ".service"@,
{
    "/etc/systemd/system/".to_owned().concat(SERVICE_NAME).concat(".service")
}

/// The configuration file that a service runs on: the one that is named for the
/// service, else the one that is named for the program, seen from where the program
/// is started.
pub open spec fn service_config(
    named: Option<Seq<char>>,
    usual: Seq<char>,
    here: Seq<char>,
) -> Seq<char> {
    paths::joined(
        here,
        match named {
            Some(n) => n,
            None => usual,
        },
    )
}

/// The configuration file that a service runs on.
pub fn config_for_service(named: Option<&str>, usual: &str, here: &str) -> (s: String)
    ensures
        s@ == service_config(
            match named {
                Some(n) => Some(n@),
                None => None,
            },
            usual@,
            here@,
        ),
{
    match named {
        Some(n) => paths::join(here, n),
        None => paths::join(here, usual),
    }
}

/// The configuration file that the program runs on: below the directory that the
/// command line names, if it names one.
pub fn config_for_run(directory: Option<&str>, config: &str) -> (s: String)
    ensures
        s@ == (match directory {
            Some(d) => d@ + "/"@ + config@,
            None => config@,
        }),
{
    match directory {
        Some(d) => d.to_owned().concat("/").concat(config),
        None => config.to_owned(),
    }
}

/// The places of an agent on macOS.
#[derive(Clone, Debug)]
pub struct AgentPlaces {
    pub support: String,
    pub logs: String,
    pub agents: String,
}

/// The places of an agent on macOS, below the home directory.
pub fn macos_dirs(home: &str) -> (p: AgentPlaces)
    ensures
        p.support@ == paths::joined(home@, "Library/Application Support/meow"@),
        p.logs@ == paths::joined(home@, "Library/Logs/meow"@),
        p.agents@ == paths::joined(home@, "Library/LaunchAgents"@),
{
    AgentPlaces {
        support: paths::join(home, "Library/Application Support/meow"),
        logs: paths::join(home, "Library/Logs/meow"),
        agents: paths::join(home, "Library/LaunchAgents"),
    }
}

/// The text of an agent for launchd.
pub open spec fn agent_text(
    exe: Seq<char>,
    config: Seq<char>,
    support: Seq<char>,
    logs: Seq<char>,
) -> Seq<char> {
    "<?xml version=\"1.0\" encoding=\"UTF-8\"?>\n<!DOCTYPE plist PUBLIC \"-//Apple//DTD PLIST 1.0//EN\" \"http://www.apple.com/DTDs/PropertyList-1.0.dtd\">\n<plist version=\"1.0\">\n<dict>\n    <key>Label</key>\n    <string>"@
        + LAUNCHD_LABEL@
        + "</string>\n    <key>ProgramArguments</key>\n    <array>\n        <string>"@ + exe
        + "</string>\n        <string>-f</string>\n        <string>"@ + config
        + "</string>\n    </array>\n    <key>WorkingDirectory</key>\n    <string>"@ + support
        + "</string>\n    <key>RunAtLoad</key>\n    <true/>\n    <key>KeepAlive</key>\n    <true/>\n    <key>StandardOutPath</key>\n    <string>"@
        + logs + "/meow.log</string>\n    <key>StandardErrorPath</key>\n    <string>"@ + logs
        + "/meow.err.log</string>\n</dict>\n</plist>\n"@
}

/// The text of an agent for launchd: it runs the program on the copy of the
/// configuration, and keeps it running.
pub fn generate_launchd_plist(exe: &str, config: &str, support: &str, logs: &str) -> (s: String)
    ensures
        s@ == agent_text(exe@, config@, support@, logs@),
{
    "<?xml version=\"1.0\" encoding=\"UTF-8\"?>\n<!DOCTYPE plist PUBLIC \"-//Apple//DTD PLIST 1.0//EN\" \"http://www.apple.com/DTDs/PropertyList-1.0.dtd\">\n<plist version=\"1.0\">\n<dict>\n    <key>Label</key>\n    <string>".to_owned().concat(
    LAUNCHD_LABEL).concat(
        "</string>\n    <key>ProgramArguments</key>\n    <array>\n        <string>",
    ).concat(exe).concat(
        "</string>\n        <string>-f</string>\n        <string>",
    ).concat(config).concat(
        "</string>\n    </array>\n    <key>WorkingDirectory</key>\n    <string>",
    ).concat(support).concat(
        "</string>\n    <key>RunAtLoad</key>\n    <true/>\n    <key>KeepAlive</key>\n    <true/>\n    <key>StandardOutPath</key>\n    <string>",
    ).concat(logs).concat(
        "/meow.log</string>\n    <key>StandardErrorPath</key>\n    <string>",
    ).concat(logs).concat("/meow.err.log</string>\n</dict>\n</plist>\n")
}

/// How it is told that a command failed.
pub fn command_error(command: &str, args: &Vec<String>, status: &str) -> (s: String)
    ensures
        s@ == command@ + " "@ + text::joined(text::views(args@), " "@) + " failed with "@
            + status@,
{
    let a = text::join(args, " ");
    command.to_owned().concat(" ").concat(a.as_str()).concat(" failed with ").concat(status)
}

} // verus!
