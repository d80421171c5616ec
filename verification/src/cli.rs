//! The arguments of the program, and what they configure.

use crate::label::{parsed_label, selector_view, Label, LabelView};
use crate::text::{has_prefix, strip_prefix};
use vstd::prelude::*;
use vstd::string::*;

verus! {

/// The command line.
#[derive(Clone, Debug, PartialEq, Eq)]
pub struct Cli {
    pub command: Command,
}

/// What the program is asked to do.
#[derive(Clone, Debug, PartialEq, Eq)]
pub enum Command {
    /// Discover the jobs and run them until shutdown.
    Run(RunArgs),
}

/// The arguments of `run`.
#[derive(Clone, Debug, PartialEq, Eq)]
pub struct RunArgs {
    /// The label prefixes that are recognised, in the order in which they
    /// are tried on each container.
    pub label_prefixes: Vec<String>,
    /// A `key=value` label that a container must carry to be considered.
    pub container_label_selector: Option<String>,
    /// The address of the container runtime.
    pub docker_host: String,
}

/// How the container runtime is reached.
#[derive(Clone, Debug, PartialEq, Eq)]
pub enum DockerEndpoint {
    /// Through the Unix socket at this path.
    Unix(String),
    /// Over TCP, with the connection settings of the environment.
    LocalDefaults,
}

/// An endpoint as a plain value.
pub enum EndpointView {
    Unix(Seq<char>),
    LocalDefaults,
}

/// Why the arguments cannot be used.
#[derive(Clone, Copy, Debug, PartialEq, Eq, Structural)]
pub enum ConfigError {
    /// The container label selector is not of the form `key=value`.
    InvalidSelector,
    /// The runtime address begins with neither `unix://` nor `tcp://`.
    UnsupportedDockerHost,
}

impl View for DockerEndpoint {
    type V = EndpointView;

    open spec fn view(&self) -> EndpointView {
        match *self {
            DockerEndpoint::Unix(path) => EndpointView::Unix(path@),
            DockerEndpoint::LocalDefaults => EndpointView::LocalDefaults,
        }
    }
}

pub open spec fn unix_scheme() -> Seq<char> {
    "unix://"@
}

pub open spec fn tcp_scheme() -> Seq<char> {
    "tcp://"@
}

/// The endpoint that a runtime address names.
pub open spec fn endpoint_of(host: Seq<char>) -> Result<EndpointView, ConfigError> {
    if has_prefix(host, unix_scheme()) {
        Ok(EndpointView::Unix(host.skip(unix_scheme().len() as int)))
    } else if has_prefix(host, tcp_scheme()) {
        Ok(EndpointView::LocalDefaults)
    } else {
        Err(ConfigError::UnsupportedDockerHost)
    }
}

/// An optional argument as a plain value.
pub open spec fn optional_arg(arg: Option<String>) -> Option<Seq<char>> {
    match arg {
        Some(text) => Some(text@),
        None => None,
    }
}

/// The selector that the optional `key=value` argument names.
pub open spec fn selector_of(arg: Option<Seq<char>>) -> Result<Option<LabelView>, ConfigError> {
    match arg {
        None => Ok(None),
        Some(text) => match parsed_label(text) {
            Some(label) => Ok(Some(label)),
            None => Err(ConfigError::InvalidSelector),
        },
    }
}

/// Tells how the runtime at `host` is reached.
pub fn docker_endpoint(host: &str) -> (r: Result<DockerEndpoint, ConfigError>)
    ensures
        match r {
            Ok(endpoint) => endpoint_of(host@) == Ok::<EndpointView, ConfigError>(endpoint@),
            Err(e) => endpoint_of(host@) == Err::<EndpointView, ConfigError>(e),
        },
{
    if let Some(path) = strip_prefix(host, "unix://") {
        return Ok(DockerEndpoint::Unix(path.to_owned()));
    }
    if strip_prefix(host, "tcp://").is_some() {
        return Ok(DockerEndpoint::LocalDefaults);
    }
    Err(ConfigError::UnsupportedDockerHost)
}

impl RunArgs {
    /// The container label selector, read as a label.
    pub fn selector(&self) -> (r: Result<Option<Label>, ConfigError>)
        ensures
            match r {
                Ok(selector) => selector_of(optional_arg(self.container_label_selector)) == Ok::<
                    Option<LabelView>,
                    ConfigError,
                >(selector_view(selector)),
                Err(e) => selector_of(optional_arg(self.container_label_selector)) == Err::<
                    Option<LabelView>,
                    ConfigError,
                >(e),
            },
    {
        match &self.container_label_selector {
            None => Ok(None),
            Some(text) => match Label::from_str(text.as_str()) {
                Ok(label) => Ok(Some(label)),
                Err(_) => Err(ConfigError::InvalidSelector),
            },
        }
    }

    /// How the container runtime of these arguments is reached.
    pub fn endpoint(&self) -> (r: Result<DockerEndpoint, ConfigError>)
        ensures
            match r {
                Ok(endpoint) => endpoint_of(self.docker_host@) == Ok::<EndpointView, ConfigError>(
                    endpoint@,
                ),
                Err(e) => endpoint_of(self.docker_host@) == Err::<EndpointView, ConfigError>(e),
            },
    {
        docker_endpoint(self.docker_host.as_str())
    }
}

} // verus!
