//! The agent's configuration, its command line, and the decisions the
//! command line leads to. Reading and writing files, installing the
//! service and running commands are left to the caller.
use vstd::prelude::*;
use vstd::string::StringExecFns;

verus! {

/// The service installer and its fixed names.
pub struct Agent;

/// What the agent is configured with.
#[derive(Clone, Debug)]
pub struct AgentConfig {
    pub agent: String,
    pub agent_only: bool,
}

/// The value of `agent_only` when the configuration leaves it out.
pub fn agent_default() -> (r: bool)
    ensures
        r == false,
{
    false
}

/// Seconds between two cycles of the continuous mode, whatever the outcome.
pub const RETRY_SECONDS: u64 = 60;

pub open spec fn words_view(v: Seq<String>) -> Seq<Seq<char>> {
    v.map_values(|s: String| s@)
}

fn push_word(v: &mut Vec<String>, w: &str)
    ensures
        words_view(final(v)@) == words_view(old(v)@).push(w@),
{
    v.push(String::from_str(w));
    assert(words_view(final(v)@) =~= words_view(old(v)@).push(w@));
}

fn command_line(a: &str, b: &str, c: &str, d: Option<&str>) -> (r: Vec<String>)
    ensures
        words_view(r@) == match d {
            Some(x) => seq![a@, b@, c@, x@],
            None => seq![a@, b@, c@],
        },
{
    let mut v: Vec<String> = Vec::new();
    push_word(&mut v, a);
    push_word(&mut v, b);
    push_word(&mut v, c);
    match d {
        Some(x) => {
            push_word(&mut v, x);
            assert(words_view(v@) =~= seq![a@, b@, c@, x@]);
        },
        None => {
            assert(words_view(v@) =~= seq![a@, b@, c@]);
        },
    }
    v
}

impl Agent {
    /// The name of the background service unit.
    pub fn service_name() -> (r: String)
        ensures
            r@ == "reverseping.service"@,
    {
        String::from_str("reverseping.service")
    }

    /// Where the service unit file is written.
    pub fn unit_path() -> (r: String)
        ensures
            r@ == "/etc/systemd/system/reverseping.service"@,
    {
        String::from_str("/etc/systemd/system/reverseping.service")
    }

    /// The name of the configuration file inside the configuration
    /// directory.
    pub fn config_file() -> (r: String)
        ensures
            r@ == "config.toml"@,
    {
        String::from_str("config.toml")
    }

    /// The commands that enable and start the service once its unit file is
    /// written, each program first.
    pub fn install_daemon() -> (r: Vec<Vec<String>>)
        ensures
            r@.len() == 2,
            words_view(r@[0]@) == seq![
                "systemctl"@,
                "--now"@,
                "enable"@,
                "reverseping.service"@,
            ],
            words_view(r@[1]@) == seq!["systemctl"@, "start"@, "reverseping.service"@],
    {
        let mut r: Vec<Vec<String>> = Vec::new();
        r.push(command_line("systemctl", "--now", "enable", Some("reverseping.service")));
        r.push(command_line("systemctl", "start", "reverseping.service", None));
        r
    }

    /// The commands that stop and disable the service before its unit file
    /// is removed, each program first.
    pub fn uninstall_daemon() -> (r: Vec<Vec<String>>)
        ensures
            r@.len() == 2,
            words_view(r@[0]@) == seq!["systemctl"@, "stop"@, "reverseping.service"@],
            words_view(r@[1]@) == seq!["systemctl"@, "disable"@, "reverseping.service"@],
    {
        let mut r: Vec<Vec<String>> = Vec::new();
        r.push(command_line("systemctl", "stop", "reverseping.service", None));
        r.push(command_line("systemctl", "disable", "reverseping.service", None));
        r
    }
}

/// The agent's subcommands.
#[derive(Clone, Debug)]
pub enum Command {
    /// Install and start the agent daemon in the background.
    Up { agent_id: String, agent_only: bool },
    /// Run the agent daemon in a loop.
    Start { agent_id: Option<String>, agent_only: bool },
    /// Run the agent daemon once.
    Scan { agent: String },
    /// Uninstall the agent daemon.
    Uninstall,
}

/// One action of a subcommand, performed by the caller in order.
#[derive(Clone, Copy, Debug, PartialEq, Eq, Structural)]
pub enum Step {
    UninstallDaemon,
    RemoveConfig,
    /// Save the configuration the command line gives.
    SaveConfig,
    InstallDaemon,
    /// Load the saved configuration.
    LoadConfig,
    /// Scan and report once.
    ScanOnce,
    /// Scan and report every `RETRY_SECONDS`, logging failures, forever.
    ScanForever,
}

pub open spec fn steps_spec(c: Command) -> Seq<Step> {
    match c {
        Command::Uninstall => seq![Step::UninstallDaemon, Step::RemoveConfig],
        Command::Up { .. } => seq![Step::SaveConfig, Step::InstallDaemon],
        Command::Start { agent_id, .. } => match agent_id {
            Some(_) => seq![Step::SaveConfig, Step::InstallDaemon, Step::ScanForever],
            None => seq![Step::LoadConfig, Step::ScanForever],
        },
        Command::Scan { .. } => seq![Step::ScanOnce],
    }
}

impl Command {
    /// The actions this command performs, in order.
    pub fn steps(&self) -> (r: Vec<Step>)
        ensures
            r@ == steps_spec(*self),
    {
        let mut r: Vec<Step> = Vec::new();
        match self {
            Command::Uninstall => {
                r.push(Step::UninstallDaemon);
                r.push(Step::RemoveConfig);
            },
            Command::Up { .. } => {
                r.push(Step::SaveConfig);
                r.push(Step::InstallDaemon);
            },
            Command::Start { agent_id, .. } => {
                match agent_id {
                    Some(_) => {
                        r.push(Step::SaveConfig);
                        r.push(Step::InstallDaemon);
                    },
                    None => {
                        r.push(Step::LoadConfig);
                    },
                }
                r.push(Step::ScanForever);
            },
            Command::Scan { .. } => {
                r.push(Step::ScanOnce);
            },
        }
        assert(r@ =~= steps_spec(*self));
        r
    }

    /// The configuration the command line itself gives: the one to save for
    /// `up` and for `start` with an agent id, the one to scan with for
    /// `scan` (never agent-only).
    pub fn config(&self) -> (r: Option<AgentConfig>)
        ensures
            match *self {
                Command::Up { agent_id, agent_only } => r == Some(
                    AgentConfig { agent: agent_id, agent_only },
                ),
                Command::Start { agent_id, agent_only } => match agent_id {
                    Some(id) => r == Some(AgentConfig { agent: id, agent_only }),
                    None => r is None,
                },
                Command::Scan { agent } => r == Some(AgentConfig { agent, agent_only: false }),
                Command::Uninstall => r is None,
            },
    {
        match self {
            Command::Up { agent_id, agent_only } => Some(
                AgentConfig { agent: agent_id.clone(), agent_only: *agent_only },
            ),
            Command::Start { agent_id, agent_only } => match agent_id {
                Some(id) => Some(AgentConfig { agent: id.clone(), agent_only: *agent_only }),
                None => None,
            },
            Command::Scan { agent } => Some(AgentConfig { agent: agent.clone(), agent_only: false }),
            Command::Uninstall => None,
        }
    }
}

impl AgentConfig {
    /// Whether a cycle scans the local network; an agent-only agent reports
    /// an empty inventory instead.
    pub fn scans_network(&self) -> (r: bool)
        ensures
            r == !self.agent_only,
    {
        !self.agent_only
    }
}

} // verus!
