//! Descriptions of log sources, their display names, and the checks on the
//! names handed to external commands.

use vstd::prelude::*;
use vstd::string::StringExecFns;
use crate::record::LogLine;

verus! {

/// The last component of `path`, as `Path::file_name` gives it.
pub uninterp spec fn file_name_of(path: Seq<char>) -> Option<Seq<char>>;

/// Relies on `Path::file_name`: the last normal component of a path, if any.
#[verifier::external_body]
fn path_file_name(path: &str) -> (r: Option<String>)
    ensures
        match r {
            Some(n) => file_name_of(path@) == Some(n@),
            None => file_name_of(path@).is_none(),
        },
{
    std::path::Path::new(path).file_name().map(|s| s.to_string_lossy().to_string())
}

/// Describes how a log source is configured.
#[derive(Clone, Debug)]
#[allow(inconsistent_fields)]
pub enum LogSourceType {
    File { path: String },
    Docker { container: String },
    K8s { pod: String, namespace: Option<String>, container: Option<String> },
    Ssh { host: String, path: String },
}

/// The display name of a Kubernetes pod source.
pub open spec fn k8s_name(pod: Seq<char>, namespace: Option<Seq<char>>, container: Option<Seq<char>>) -> Seq<char> {
    match (namespace, container) {
        (Some(ns), Some(c)) => "k8s:"@ + ns + "/"@ + pod + "/"@ + c,
        (Some(ns), None) => "k8s:"@ + ns + "/"@ + pod,
        (None, Some(c)) => "k8s:"@ + pod + "/"@ + c,
        (None, None) => "k8s:"@ + pod,
    }
}

pub open spec fn opt_view(s: Option<String>) -> Option<Seq<char>> {
    match s {
        Some(v) => Some(v@),
        None => None,
    }
}

/// The display name of a source.
pub open spec fn source_name(s: LogSourceType) -> Seq<char> {
    match s {
        LogSourceType::File { path } => match file_name_of(path@) {
            Some(n) => n,
            None => path@,
        },
        LogSourceType::Docker { container } => "docker:"@ + container@,
        LogSourceType::K8s { pod, namespace, container } => k8s_name(
            pod@,
            opt_view(namespace),
            opt_view(container),
        ),
        LogSourceType::Ssh { host, path } => "ssh:"@ + host@ + ":"@ + path@,
    }
}

/// Formats the display name of a Kubernetes pod source.
pub fn format_k8s_name(pod: &String, namespace: &Option<String>, container: &Option<String>) -> (r: String)
    ensures
        r@ == k8s_name(pod@, opt_view(*namespace), opt_view(*container)),
{
    let mut out = String::from_str("k8s:");
    match (namespace, container) {
        (Some(ns), Some(c)) => {
            out.append(ns.as_str());
            out.append("/");
            out.append(pod.as_str());
            out.append("/");
            out.append(c.as_str());
        },
        (Some(ns), None) => {
            out.append(ns.as_str());
            out.append("/");
            out.append(pod.as_str());
        },
        (None, Some(c)) => {
            out.append(pod.as_str());
            out.append("/");
            out.append(c.as_str());
        },
        (None, None) => {
            out.append(pod.as_str());
        },
    }
    out
}

impl LogSourceType {
    pub fn name(&self) -> (r: String)
        ensures
            r@ == source_name(*self),
    {
        match self {
            LogSourceType::File { path } => match path_file_name(path.as_str()) {
                Some(n) => n,
                None => path.clone(),
            },
            LogSourceType::Docker { container } => {
                let mut out = String::from_str("docker:");
                out.append(container.as_str());
                out
            },
            LogSourceType::K8s { pod, namespace, container } => format_k8s_name(pod, namespace, container),
            LogSourceType::Ssh { host, path } => {
                let mut out = String::from_str("ssh:");
                out.append(host.as_str());
                out.append(":");
                out.append(path.as_str());
                out
            },
        }
    }
}

/// Events emitted by log sources.
pub enum LogEvent {
    Line(LogLine),
    Error(String),
    EndOfStream,
}

/// A name that an external command would read as an option.
pub open spec fn starts_with_dash(s: Seq<char>) -> bool {
    s.len() > 0 && s[0] == '-'
}

fn first_is_dash(s: &str) -> (r: bool)
    requires
        s@.len() > 0,
    ensures
        r == starts_with_dash(s@),
{
    s.get_char(0) == '-'
}

/// Validate a Docker container name to prevent option injection.
pub fn validate_container_name(name: &str) -> (r: Result<(), String>)
    ensures
        r.is_err() == (name@.len() == 0 || starts_with_dash(name@)),
{
    if name.unicode_len() == 0 {
        return Err(String::from_str("Container name cannot be empty"));
    }
    if first_is_dash(name) {
        return Err(String::from_str("Invalid container name: cannot start with '-'"));
    }
    Ok(())
}

/// Validate a Kubernetes pod name to prevent option injection.
pub fn validate_pod_name(name: &str) -> (r: Result<(), String>)
    ensures
        r.is_err() == (name@.len() == 0 || starts_with_dash(name@)),
{
    if name.unicode_len() == 0 {
        return Err(String::from_str("Pod name cannot be empty"));
    }
    if first_is_dash(name) {
        return Err(String::from_str("Invalid pod name: cannot start with '-'"));
    }
    Ok(())
}

/// Validate a remote path to prevent option injection.
pub fn validate_remote_path(path: &str) -> (r: Result<(), String>)
    ensures
        r.is_err() == (path@.len() == 0 || starts_with_dash(path@)),
{
    if path.unicode_len() == 0 {
        return Err(String::from_str("Remote path cannot be empty"));
    }
    if first_is_dash(path) {
        return Err(String::from_str("Invalid remote path: cannot start with '-'"));
    }
    Ok(())
}

/// Characters allowed in an SSH host: ASCII letters and digits, `.`, `-`, `_`,
/// `@` (for user@host) and `:` (for a port).
pub open spec fn host_char_ok(c: char) -> bool {
    ('a' <= c <= 'z') || ('A' <= c <= 'Z') || ('0' <= c <= '9') || c == '.' || c == '-' || c == '_'
        || c == '@' || c == ':'
}

/// Validate an SSH hostname against option injection and shell metacharacters.
pub fn validate_ssh_host(host: &str) -> (r: Result<(), String>)
    ensures
        r.is_err() == (host@.len() == 0 || starts_with_dash(host@) || exists|i: int|
            0 <= i < host@.len() && !host_char_ok(#[trigger] host@[i])),
{
    let n = host.unicode_len();
    if n == 0 {
        return Err(String::from_str("SSH hostname cannot be empty"));
    }
    if first_is_dash(host) {
        return Err(String::from_str("Invalid SSH hostname: cannot start with '-'"));
    }
    let mut i: usize = 0;
    while i < n
        invariant
            n == host@.len(),
            i <= n,
            forall|j: int| 0 <= j < i ==> host_char_ok(#[trigger] host@[j]),
        decreases n - i,
    {
        let c = host.get_char(i);
        if !(('a' <= c && c <= 'z') || ('A' <= c && c <= 'Z') || ('0' <= c && c <= '9') || c == '.'
            || c == '-' || c == '_' || c == '@' || c == ':') {
            let mut msg = String::from_str("Invalid SSH hostname '");
            msg.append(host);
            msg.append("': contains disallowed characters");
            return Err(msg);
        }
        i += 1;
    }
    Ok(())
}

/// A log source that reads from a Docker container.
pub struct DockerSource {
    pub container: String,
}

impl DockerSource {
    pub fn new(container: String) -> (r: Self)
        ensures
            r.container == container,
    {
        DockerSource { container }
    }

    pub fn name(&self) -> (r: String)
        ensures
            r@ == self.container@,
    {
        self.container.clone()
    }
}

/// A log source that follows a local file.
pub struct FileSource {
    pub path: String,
}

impl FileSource {
    pub fn new(path: String) -> (r: Self)
        ensures
            r.path == path,
    {
        FileSource { path }
    }

    pub fn name(&self) -> (r: String)
        ensures
            r@ == self.path@,
    {
        self.path.clone()
    }
}

/// Kubernetes pod log source.
pub struct K8sSource {
    /// Pod name (or name pattern)
    pub pod: String,
    /// Namespace (optional, defaults to current context)
    pub namespace: Option<String>,
    /// Container name (optional, required for multi-container pods)
    pub container: Option<String>,
}

impl K8sSource {
    pub fn new(pod: String, namespace: Option<String>, container: Option<String>) -> (r: Self)
        ensures
            r.pod == pod,
            r.namespace == namespace,
            r.container == container,
    {
        K8sSource { pod, namespace, container }
    }

    pub fn name(&self) -> (r: String)
        ensures
            r@ == k8s_name(self.pod@, opt_view(self.namespace), opt_view(self.container)),
    {
        format_k8s_name(&self.pod, &self.namespace, &self.container)
    }
}

/// SSH remote file log source.
pub struct SshSource {
    /// SSH host (user@host or just host)
    pub host: String,
    /// Remote file path
    pub path: String,
    /// SSH host key checking mode
    pub host_key_checking: String,
}

impl SshSource {
    pub fn new(host: String, path: String) -> (r: Self)
        ensures
            r.host == host,
            r.path == path,
            r.host_key_checking@ == "yes"@,
    {
        Self::with_host_key_checking(host, path, String::from_str("yes"))
    }

    pub fn with_host_key_checking(host: String, path: String, host_key_checking: String) -> (r: Self)
        ensures
            r.host == host,
            r.path == path,
            r.host_key_checking == host_key_checking,
    {
        SshSource { host, path, host_key_checking }
    }

    pub fn name(&self) -> (r: String)
        ensures
            r@ == "ssh:"@ + self.host@ + ":"@ + self.path@,
    {
        let mut out = String::from_str("ssh:");
        out.append(self.host.as_str());
        out.append(":");
        out.append(self.path.as_str());
        out
    }
}

} // verus!
