//! Error taxonomy shared by the store, the registry and the service layer.

use vstd::prelude::*;
use vstd::string::StringExecFns;

verus! {

/// Error raised by the shadow store and the service layer.
///
/// Domain errors (`NotFound`, `InvalidInput`, lock conflicts reported as
/// `Database`) are mapped by the service into per-response failure flags;
/// they never abort a call.
#[derive(Debug, Clone, PartialEq, Eq)]
pub enum VehicleShadowError {
    Io(String),
    Serialization(String),
    Database(String),
    NotFound(String),
    InvalidInput(String),
    Configuration(String),
    Rpc(String),
    Network(String),
}

impl VehicleShadowError {
    /// The rendered text of the error: a fixed prefix naming the kind,
    /// then the detail message.
    pub open spec fn spec_message(&self) -> Seq<char> {
        match self {
            VehicleShadowError::Io(e) => "IO error: "@ + e@,
            VehicleShadowError::Serialization(e) => "Serialization error: "@ + e@,
            VehicleShadowError::Database(e) => "Database error: "@ + e@,
            VehicleShadowError::NotFound(e) => "Not found: "@ + e@,
            VehicleShadowError::InvalidInput(e) => "Invalid input: "@ + e@,
            VehicleShadowError::Configuration(e) => "Configuration error: "@ + e@,
            VehicleShadowError::Rpc(e) => "RPC error: "@ + e@,
            VehicleShadowError::Network(e) => "Network error: "@ + e@,
        }
    }

    /// Renders the error as text.
    pub fn message(&self) -> (r: String)
        ensures
            r@ == self.spec_message(),
    {
        match self {
            VehicleShadowError::Io(e) => prefixed("IO error: ", e),
            VehicleShadowError::Serialization(e) => prefixed("Serialization error: ", e),
            VehicleShadowError::Database(e) => prefixed("Database error: ", e),
            VehicleShadowError::NotFound(e) => prefixed("Not found: ", e),
            VehicleShadowError::InvalidInput(e) => prefixed("Invalid input: ", e),
            VehicleShadowError::Configuration(e) => prefixed("Configuration error: ", e),
            VehicleShadowError::Rpc(e) => prefixed("RPC error: ", e),
            VehicleShadowError::Network(e) => prefixed("Network error: ", e),
        }
    }
}

/// Error raised by the client-side helpers (JSON parsing and formatting).
#[derive(Debug, Clone, PartialEq, Eq)]
pub enum ClientError {
    Io(String),
    Serialization(String),
    Database(String),
    NotFound(String),
    InvalidInput(String),
    Configuration(String),
    Rpc(String),
    Network(String),
}

impl ClientError {
    /// The rendered text of the error: a fixed prefix naming the kind,
    /// then the detail message.
    pub open spec fn spec_message(&self) -> Seq<char> {
        match self {
            ClientError::Io(e) => "IO error: "@ + e@,
            ClientError::Serialization(e) => "Serialization error: "@ + e@,
            ClientError::Database(e) => "Database error: "@ + e@,
            ClientError::NotFound(e) => "Not found: "@ + e@,
            ClientError::InvalidInput(e) => "Invalid input: "@ + e@,
            ClientError::Configuration(e) => "Configuration error: "@ + e@,
            ClientError::Rpc(e) => "RPC error: "@ + e@,
            ClientError::Network(e) => "Network error: "@ + e@,
        }
    }

    /// Renders the error as text.
    pub fn message(&self) -> (r: String)
        ensures
            r@ == self.spec_message(),
    {
        match self {
            ClientError::Io(e) => prefixed("IO error: ", e),
            ClientError::Serialization(e) => prefixed("Serialization error: ", e),
            ClientError::Database(e) => prefixed("Database error: ", e),
            ClientError::NotFound(e) => prefixed("Not found: ", e),
            ClientError::InvalidInput(e) => prefixed("Invalid input: ", e),
            ClientError::Configuration(e) => prefixed("Configuration error: ", e),
            ClientError::Rpc(e) => prefixed("RPC error: ", e),
            ClientError::Network(e) => prefixed("Network error: ", e),
        }
    }
}

/// A rendered error is never empty: every kind opens with its prefix.
pub proof fn lemma_message_nonempty(e: VehicleShadowError)
    ensures
        e.spec_message().len() > 0,
{
    reveal_strlit("IO error: ");
    reveal_strlit("Serialization error: ");
    reveal_strlit("Database error: ");
    reveal_strlit("Not found: ");
    reveal_strlit("Invalid input: ");
    reveal_strlit("Configuration error: ");
    reveal_strlit("RPC error: ");
    reveal_strlit("Network error: ");
}

/// Joins a fixed prefix and a detail message.
fn prefixed(prefix: &str, detail: &String) -> (r: String)
    ensures
        r@ == prefix@ + detail@,
{
    let mut r = prefix.to_owned();
    r.append(detail.as_str());
    r
}

} // verus!
