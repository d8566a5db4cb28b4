//! The data that crosses the library's boundary: adapter summaries, IPv4
//! configurations and the errors an operation can end with, each with its
//! mathematical view.

use vstd::prelude::*;

verus! {

/// One network adapter as shown to the user: the key by which the system
/// knows it, and a friendly label.
#[derive(Debug, Clone, PartialEq, Eq)]
pub struct AdapterInfo {
    /// The adapter's name, which identifies it in every later request.
    pub name: String,
    /// The label to display: a readable name followed by the adapter's
    /// status in parentheses.
    pub status: String,
}

/// The view of an [`AdapterInfo`].
pub struct AdapterInfoView {
    pub name: Seq<char>,
    pub status: Seq<char>,
}

impl View for AdapterInfo {
    type V = AdapterInfoView;

    open spec fn view(&self) -> AdapterInfoView {
        AdapterInfoView { name: self.name@, status: self.status@ }
    }
}

/// The IPv4 settings of one adapter. `gateway`, `dns1` and `dns2` may be
/// empty, which means that the setting is absent.
#[derive(Debug, Clone, PartialEq, Eq)]
pub struct Ipv4Config {
    pub adapter: String,
    pub ip: String,
    pub mask: String,
    pub gateway: String,
    pub dns1: String,
    pub dns2: String,
}

/// The view of an [`Ipv4Config`].
pub struct Ipv4ConfigView {
    pub adapter: Seq<char>,
    pub ip: Seq<char>,
    pub mask: Seq<char>,
    pub gateway: Seq<char>,
    pub dns1: Seq<char>,
    pub dns2: Seq<char>,
}

impl View for Ipv4Config {
    type V = Ipv4ConfigView;

    open spec fn view(&self) -> Ipv4ConfigView {
        Ipv4ConfigView {
            adapter: self.adapter@,
            ip: self.ip@,
            mask: self.mask@,
            gateway: self.gateway@,
            dns1: self.dns1@,
            dns2: self.dns2@,
        }
    }
}

/// The steps of applying a configuration that run a command.
#[derive(Debug, Clone, Copy, PartialEq, Eq)]
pub enum ApplyStage {
    /// Setting address, mask and, if given, gateway.
    Address,
    /// Setting the primary DNS server.
    PrimaryDns,
    /// Adding the secondary DNS server.
    SecondaryDns,
}

/// Why an operation ended without its result.
#[derive(Debug, Clone, PartialEq, Eq)]
pub enum ConfigError {
    /// The command could not be started; holds the system's message.
    GatewayLaunchFailure(String),
    /// The command ran and reported failure; holds its error output.
    GatewayNonZeroExit(String),
    /// The command's output has none of the expected shapes; holds the
    /// output as text.
    UnparseableOutput(String),
    /// A prefix length above 32; holds the value.
    InvalidPrefixLength(u64),
    /// No adapter is named.
    MissingAdapter,
    /// The address is empty or no dotted quad.
    InvalidAddress,
    /// The mask is empty or no dotted quad.
    InvalidMask,
    /// The gateway is neither empty nor a dotted quad.
    InvalidGateway,
    /// The primary DNS server is neither empty nor a dotted quad.
    InvalidDns1,
    /// The secondary DNS server is neither empty nor a dotted quad.
    InvalidDns2,
    /// A command of the apply sequence ran and reported failure.
    ApplyStepFailure {
        /// The step that failed.
        step: ApplyStage,
        /// The command's error output.
        detail: String,
        /// The command as it was run.
        command: String,
    },
}

/// The view of a [`ConfigError`].
pub enum ConfigErrorView {
    GatewayLaunchFailure(Seq<char>),
    GatewayNonZeroExit(Seq<char>),
    UnparseableOutput(Seq<char>),
    InvalidPrefixLength(u64),
    MissingAdapter,
    InvalidAddress,
    InvalidMask,
    InvalidGateway,
    InvalidDns1,
    InvalidDns2,
    ApplyStepFailure { step: ApplyStage, detail: Seq<char>, command: Seq<char> },
}

impl View for ConfigError {
    type V = ConfigErrorView;

    open spec fn view(&self) -> ConfigErrorView {
        match self {
            ConfigError::GatewayLaunchFailure(m) => ConfigErrorView::GatewayLaunchFailure(m@),
            ConfigError::GatewayNonZeroExit(m) => ConfigErrorView::GatewayNonZeroExit(m@),
            ConfigError::UnparseableOutput(t) => ConfigErrorView::UnparseableOutput(t@),
            ConfigError::InvalidPrefixLength(p) => ConfigErrorView::InvalidPrefixLength(*p),
            ConfigError::MissingAdapter => ConfigErrorView::MissingAdapter,
            ConfigError::InvalidAddress => ConfigErrorView::InvalidAddress,
            ConfigError::InvalidMask => ConfigErrorView::InvalidMask,
            ConfigError::InvalidGateway => ConfigErrorView::InvalidGateway,
            ConfigError::InvalidDns1 => ConfigErrorView::InvalidDns1,
            ConfigError::InvalidDns2 => ConfigErrorView::InvalidDns2,
            ConfigError::ApplyStepFailure { step, detail, command } => {
                ConfigErrorView::ApplyStepFailure {
                    step: *step,
                    detail: detail@,
                    command: command@,
                }
            },
        }
    }
}

/// The views of the adapters of `v`, in order.
pub open spec fn adapter_views(v: Seq<AdapterInfo>) -> Seq<AdapterInfoView> {
    Seq::new(v.len(), |i: int| v[i]@)
}

impl Ipv4Config {
    /// A copy of this configuration.
    pub fn duplicate(&self) -> (r: Ipv4Config)
        ensures
            r@ == self@,
    {
        Ipv4Config {
            adapter: self.adapter.clone(),
            ip: self.ip.clone(),
            mask: self.mask.clone(),
            gateway: self.gateway.clone(),
            dns1: self.dns1.clone(),
            dns2: self.dns2.clone(),
        }
    }
}

impl ConfigError {
    /// A copy of this error.
    pub fn duplicate(&self) -> (r: ConfigError)
        ensures
            r@ == self@,
    {
        match self {
            ConfigError::GatewayLaunchFailure(m) => ConfigError::GatewayLaunchFailure(m.clone()),
            ConfigError::GatewayNonZeroExit(m) => ConfigError::GatewayNonZeroExit(m.clone()),
            ConfigError::UnparseableOutput(t) => ConfigError::UnparseableOutput(t.clone()),
            ConfigError::InvalidPrefixLength(p) => ConfigError::InvalidPrefixLength(*p),
            ConfigError::MissingAdapter => ConfigError::MissingAdapter,
            ConfigError::InvalidAddress => ConfigError::InvalidAddress,
            ConfigError::InvalidMask => ConfigError::InvalidMask,
            ConfigError::InvalidGateway => ConfigError::InvalidGateway,
            ConfigError::InvalidDns1 => ConfigError::InvalidDns1,
            ConfigError::InvalidDns2 => ConfigError::InvalidDns2,
            ConfigError::ApplyStepFailure { step, detail, command } => {
                ConfigError::ApplyStepFailure {
                    step: *step,
                    detail: detail.clone(),
                    command: command.clone(),
                }
            },
        }
    }
}

} // verus!
