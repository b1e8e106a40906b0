//! The settings of the adapter.

use vstd::prelude::*;

verus! {

/// The settings of the Caddy source.
#[derive(Debug, Clone)]
pub struct CaddyConfig {
    /// Whether the source takes part in a polling cycle at all.
    pub enabled: bool,
    /// Where the proxy reports its configuration.
    pub url: String,
    /// Whether the hosts are monitored over `https` rather than `http`.
    pub use_https: bool,
    /// What a monitor's name begins with, before the host.
    pub monitor_name_prefix: Option<String>,
    /// The group under which the monitors are filed.
    pub parent_name: Option<String>,
}

/// The settings with their strings as character sequences.
pub struct CaddyConfigView {
    pub enabled: bool,
    pub url: Seq<char>,
    pub use_https: bool,
    pub monitor_name_prefix: Option<Seq<char>>,
    pub parent_name: Option<Seq<char>>,
}

/// The character sequence of a string that may be absent.
pub open spec fn text_of(value: Option<String>) -> Option<Seq<char>> {
    match value {
        Some(s) => Some(s@),
        None => None,
    }
}

impl View for CaddyConfig {
    type V = CaddyConfigView;

    open spec fn view(&self) -> CaddyConfigView {
        CaddyConfigView {
            enabled: self.enabled,
            url: self.url@,
            use_https: self.use_https,
            monitor_name_prefix: text_of(self.monitor_name_prefix),
            parent_name: text_of(self.parent_name),
        }
    }
}

} // verus!
