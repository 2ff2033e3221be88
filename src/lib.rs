//! Discovery of compute nodes in cloud environments (AWS EC2, UpCloud), filtered by
//! tags or labels, as a list of addresses with metadata.
//!
//! The library holds the logic: the `key=value,...` configuration grammar, the
//! choice of provider and its required settings, and the mapping from what a
//! provider's API reports to `Node`s. The network calls themselves are made by
//! the caller, which hands the reported values in.
use vstd::prelude::*;

pub mod aws;
pub mod config;
pub mod discovery;
pub mod settings;
pub mod strmap;
pub mod text;
pub mod upcloud;

pub use config::parse_config;
pub use discovery::{Discovery, DiscoveryBuilder, ProviderSettings};
pub use strmap::StringMap;

verus! {

/// The ways in which discovery fails.
#[derive(Clone, Debug, PartialEq, Eq)]
pub enum DiscoveryError {
    /// A malformed configuration string, or a missing required key.
    ConfigError(String),
    /// The provider's API call failed.
    ProviderError(String),
    /// No provider of that name is known.
    UnknownProvider(String),
}

impl DiscoveryError {
    /// The text that describes the error to a person.
    pub fn message(&self) -> (r: String)
        ensures
            r@ == self.message_spec(),
    {
        match self {
            DiscoveryError::ConfigError(m) => String::from_str("Invalid configuration: ").concat(
                m.as_str(),
            ),
            DiscoveryError::ProviderError(m) => String::from_str("Provider error: ").concat(
                m.as_str(),
            ),
            DiscoveryError::UnknownProvider(m) => String::from_str("Unknown provider: ").concat(
                m.as_str(),
            ),
        }
    }

    pub open spec fn message_spec(&self) -> Seq<char> {
        match self {
            DiscoveryError::ConfigError(m) => "Invalid configuration: "@ + m@,
            DiscoveryError::ProviderError(m) => "Provider error: "@ + m@,
            DiscoveryError::UnknownProvider(m) => "Unknown provider: "@ + m@,
        }
    }
}

/// One discovered endpoint: its address and its metadata.
#[derive(Clone, Debug)]
pub struct Node {
    pub address: String,
    pub meta: StringMap,
}

impl View for Node {
    type V = (Seq<char>, Map<Seq<char>, Seq<char>>);

    open spec fn view(&self) -> (Seq<char>, Map<Seq<char>, Seq<char>>) {
        (self.address@, self.meta@)
    }
}

} // verus!
