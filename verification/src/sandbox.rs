use vstd::prelude::*;

use crate::text::{concat2, owned, str_eq};

verus! {

/// Where agent tools run.
#[derive(Debug, Clone, Copy, PartialEq, Eq, Structural)]
pub enum SandboxProvider {
    /// On the local host.
    Local,
    /// Inside a Docker container.
    Docker,
    /// Inside a Daytona cloud sandbox.
    Daytona,
}

impl Default for SandboxProvider {
    fn default() -> (r: SandboxProvider)
        ensures
            r == SandboxProvider::Local,
    {
        SandboxProvider::Local
    }
}

pub open spec fn provider_name(p: SandboxProvider) -> Seq<char> {
    match p {
        SandboxProvider::Local => "local"@,
        SandboxProvider::Docker => "docker"@,
        SandboxProvider::Daytona => "daytona"@,
    }
}

/// What `str::to_lowercase` gives for a text.
pub uninterp spec fn lowercase(s: Seq<char>) -> Seq<char>;

/// Calls `str::to_lowercase`; the contract names the result
/// `lowercase(s)`.
#[verifier::external_body]
fn to_lowercase(s: &str) -> (r: String)
    ensures
        r@ == lowercase(s@),
{
    s.to_lowercase()
}

/// The provider that a lower-case name selects.
pub open spec fn provider_for(l: Seq<char>) -> Result<SandboxProvider, Seq<char>> {
    if l == "local"@ {
        Ok(SandboxProvider::Local)
    } else if l == "docker"@ {
        Ok(SandboxProvider::Docker)
    } else if l == "daytona"@ {
        Ok(SandboxProvider::Daytona)
    } else {
        Err("unknown sandbox provider: "@ + l)
    }
}

/// A provider's name selects that provider again.
pub proof fn law_provider_name_round_trip(p: SandboxProvider)
    ensures
        provider_for(provider_name(p)) == Ok::<SandboxProvider, Seq<char>>(p),
{
    reveal_strlit("local");
    reveal_strlit("docker");
    reveal_strlit("daytona");
    assert("docker"@[0] != "local"@[0]);
    assert("daytona"@[0] != "local"@[0]);
    assert("daytona"@[1] != "docker"@[1]);
}

impl SandboxProvider {
    /// The provider's name: `local`, `docker` or `daytona`.
    pub fn to_string(&self) -> (r: String)
        ensures
            r@ == provider_name(*self),
    {
        match self {
            SandboxProvider::Local => owned("local"),
            SandboxProvider::Docker => owned("docker"),
            SandboxProvider::Daytona => owned("daytona"),
        }
    }

    /// The provider named by an already lower-cased name.
    pub fn from_lowercase(l: &str) -> (r: Result<SandboxProvider, String>)
        ensures
            match provider_for(l@) {
                Ok(p) => r == Ok::<SandboxProvider, String>(p),
                Err(m) => r matches Err(e) && e@ == m,
            },
    {
        if str_eq(l, "local") {
            Ok(SandboxProvider::Local)
        } else if str_eq(l, "docker") {
            Ok(SandboxProvider::Docker)
        } else if str_eq(l, "daytona") {
            Ok(SandboxProvider::Daytona)
        } else {
            Err(concat2("unknown sandbox provider: ", l))
        }
    }

    /// The provider named by `s`, in any case.
    pub fn parse(s: &str) -> (r: Result<SandboxProvider, String>)
        ensures
            match provider_for(lowercase(s@)) {
                Ok(p) => r == Ok::<SandboxProvider, String>(p),
                Err(m) => r matches Err(e) && e@ == m,
            },
    {
        let l = to_lowercase(s);
        SandboxProvider::from_lowercase(l.as_str())
    }
}

impl std::str::FromStr for SandboxProvider {
    type Err = String;

    fn from_str(s: &str) -> (r: Result<SandboxProvider, String>)
        ensures
            match provider_for(lowercase(s@)) {
                Ok(p) => r == Ok::<SandboxProvider, String>(p),
                Err(m) => r matches Err(e) && e@ == m,
            },
    {
        SandboxProvider::parse(s)
    }
}

/// What is saved about a run's sandbox so that it can be reached again.
#[derive(Debug, Clone)]
pub struct SandboxRecord {
    /// `local`, `docker`, `daytona` or `exe`.
    pub provider: String,
    /// Working directory inside the sandbox.
    pub working_directory: String,
    /// Container id, sandbox name or VM name.
    pub identifier: Option<String>,
    /// Docker: the host directory mounted into the container.
    pub host_working_directory: Option<String>,
    /// Docker: where it is mounted inside the container.
    pub container_mount_point: Option<String>,
    /// Exe: the SSH destination of the data plane.
    pub data_host: Option<String>,
}

/// How to reach a recorded sandbox again.
pub enum Reconnect {
    /// A local sandbox in this directory.
    Local { working_directory: String },
    /// A Docker sandbox, reached through its bind mount.
    Docker { host_working_directory: String, container_mount_point: String },
    /// A Daytona sandbox with this name.
    Daytona { name: String },
    /// An exe sandbox behind this SSH destination.
    Exe { data_host: String },
}

pub enum ReconnectView {
    Local { working_directory: Seq<char> },
    Docker { host_working_directory: Seq<char>, container_mount_point: Seq<char> },
    Daytona { name: Seq<char> },
    Exe { data_host: Seq<char> },
}

impl View for Reconnect {
    type V = ReconnectView;

    open spec fn view(&self) -> ReconnectView {
        match self {
            Reconnect::Local { working_directory } => ReconnectView::Local {
                working_directory: working_directory@,
            },
            Reconnect::Docker { host_working_directory, container_mount_point } => ReconnectView::Docker {
                host_working_directory: host_working_directory@,
                container_mount_point: container_mount_point@,
            },
            Reconnect::Daytona { name } => ReconnectView::Daytona { name: name@ },
            Reconnect::Exe { data_host } => ReconnectView::Exe { data_host: data_host@ },
        }
    }
}

pub open spec fn opt_text(o: Option<String>) -> Option<Seq<char>> {
    match o {
        Some(s) => Some(s@),
        None => None,
    }
}

/// How a record is reached again, or why it cannot be.
pub open spec fn reconnect_for(r: SandboxRecord) -> Result<ReconnectView, Seq<char>> {
    let p = r.provider@;
    if p == "local"@ {
        Ok(ReconnectView::Local { working_directory: r.working_directory@ })
    } else if p == "docker"@ {
        match opt_text(r.host_working_directory) {
            Some(h) => Ok(
                ReconnectView::Docker {
                    host_working_directory: h,
                    container_mount_point: match opt_text(r.container_mount_point) {
                        Some(m) => m,
                        None => "/workspace"@,
                    },
                },
            ),
            None => Err("Docker sandbox record missing host_working_directory"@),
        }
    } else if p == "daytona"@ {
        match opt_text(r.identifier) {
            Some(n) => Ok(ReconnectView::Daytona { name: n }),
            None => Err("Daytona sandbox record missing identifier (sandbox name)"@),
        }
    } else if p == "exe"@ {
        match opt_text(r.data_host) {
            Some(h) => Ok(ReconnectView::Exe { data_host: h }),
            None => Err("Exe sandbox record missing data_host"@),
        }
    } else {
        Err("Unknown sandbox provider: "@ + p)
    }
}

/// Works out how to reach a recorded sandbox again: by provider, with the
/// fields that provider needs; a Docker mount point defaults to
/// `/workspace`.
pub fn reconnect_plan(record: &SandboxRecord) -> (r: Result<Reconnect, String>)
    ensures
        match reconnect_for(*record) {
            Ok(v) => r matches Ok(x) && x@ == v,
            Err(m) => r matches Err(e) && e@ == m,
        },
{
    let p = record.provider.as_str();
    if str_eq(p, "local") {
        Ok(Reconnect::Local { working_directory: owned(record.working_directory.as_str()) })
    } else if str_eq(p, "docker") {
        match &record.host_working_directory {
            Some(h) => {
                let mount = match &record.container_mount_point {
                    Some(m) => owned(m.as_str()),
                    None => owned("/workspace"),
                };
                Ok(Reconnect::Docker { host_working_directory: owned(h.as_str()), container_mount_point: mount })
            },
            None => Err(owned("Docker sandbox record missing host_working_directory")),
        }
    } else if str_eq(p, "daytona") {
        match &record.identifier {
            Some(n) => Ok(Reconnect::Daytona { name: owned(n.as_str()) }),
            None => Err(owned("Daytona sandbox record missing identifier (sandbox name)")),
        }
    } else if str_eq(p, "exe") {
        match &record.data_host {
            Some(h) => Ok(Reconnect::Exe { data_host: owned(h.as_str()) }),
            None => Err(owned("Exe sandbox record missing data_host")),
        }
    } else {
        Err(concat2("Unknown sandbox provider: ", p))
    }
}

/// Settings of a Daytona cloud sandbox.
pub struct DaytonaConfig {
    /// The Docker image of the sandbox.
    pub image: String,
    /// The working directory inside the sandbox.
    pub working_directory: String,
}

impl Default for DaytonaConfig {
    fn default() -> (c: DaytonaConfig)
        ensures
            c.image@ == "ubuntu:22.04"@,
            c.working_directory@ == "/home/daytona/workspace"@,
    {
        DaytonaConfig { image: owned("ubuntu:22.04"), working_directory: owned("/home/daytona/workspace") }
    }
}

} // verus!
