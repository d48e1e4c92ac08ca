//! What the launchers accept on the command line. Reading the process's
//! arguments is left to the caller; the rules are here.

use vstd::prelude::*;
use vstd::string::*;
use crate::text::{spec_split_once, split_once, str_equal};

pub mod directory;
pub mod maker;
pub mod taker;

verus! {

/// Why an address or a network name was refused.
#[derive(Clone, Copy, Debug, PartialEq, Eq, Structural)]
pub enum NetError {
    /// The text is not of the form `left:right`.
    InvalidNetworkAddress,
    /// The text names no transport.
    InvalidAppNetwork,
}

impl NetError {
    /// The error's name, as it is shown to the user.
    pub fn message(&self) -> (text: String)
        ensures
            text@ == spec_message(*self),
    {
        match self {
            NetError::InvalidNetworkAddress => String::from_str("InvalidNetworkAddress"),
            NetError::InvalidAppNetwork => String::from_str("InvalidAppNetwork"),
        }
    }
}

/// The error's name.
pub open spec fn spec_message(error: NetError) -> Seq<char> {
    match error {
        NetError::InvalidNetworkAddress => "InvalidNetworkAddress"@,
        NetError::InvalidAppNetwork => "InvalidAppNetwork"@,
    }
}

/// How peers are reached.
#[derive(Clone, Copy, Debug, PartialEq, Eq, Structural)]
pub enum ConnectionType {
    /// Through the anonymizing network.
    TOR,
    /// Directly.
    CLEARNET,
}

/// The transport that a name stands for.
pub open spec fn spec_connection_type(name: Seq<char>) -> Result<ConnectionType, NetError> {
    if name == "tor"@ {
        Ok(ConnectionType::TOR)
    } else if name == "clearnet"@ {
        Ok(ConnectionType::CLEARNET)
    } else {
        Err(NetError::InvalidAppNetwork)
    }
}

impl ConnectionType {
    /// Reads a transport's name: `tor` or `clearnet`.
    pub fn from_str(name: &str) -> (parsed: Result<ConnectionType, NetError>)
        ensures
            parsed == spec_connection_type(name@),
    {
        if str_equal(name, "tor") {
            Ok(ConnectionType::TOR)
        } else if str_equal(name, "clearnet") {
            Ok(ConnectionType::CLEARNET)
        } else {
            Err(NetError::InvalidAppNetwork)
        }
    }
}

/// The network of the settlement-layer node.
#[derive(Clone, Copy, Debug, PartialEq, Eq, Structural)]
pub enum RpcNetwork {
    Regtest,
    Signet,
    Mainnet,
}

/// The network that a name stands for.
pub open spec fn spec_rpc_network(name: Seq<char>) -> Option<RpcNetwork> {
    if name == "regtest"@ {
        Some(RpcNetwork::Regtest)
    } else if name == "signet"@ {
        Some(RpcNetwork::Signet)
    } else if name == "mainnet"@ {
        Some(RpcNetwork::Mainnet)
    } else {
        None
    }
}

impl RpcNetwork {
    /// Reads a network's name: `regtest`, `signet` or `mainnet`.
    pub fn from_name(name: &str) -> (parsed: Option<RpcNetwork>)
        ensures
            parsed == spec_rpc_network(name@),
    {
        if str_equal(name, "regtest") {
            Some(RpcNetwork::Regtest)
        } else if str_equal(name, "signet") {
            Some(RpcNetwork::Signet)
        } else if str_equal(name, "mainnet") {
            Some(RpcNetwork::Mainnet)
        } else {
            None
        }
    }
}

/// The user and the password that `user:password` names, where the text
/// holds exactly one colon.
pub open spec fn spec_proxy_auth(text: Seq<char>) -> Result<(Seq<char>, Seq<char>), NetError> {
    match spec_split_once(text, ':') {
        Some(pair) => Ok(pair),
        None => Err(NetError::InvalidNetworkAddress),
    }
}

/// What the outcome of reading `user:password` holds.
pub open spec fn auth_view(parsed: Result<(String, String), NetError>) -> Result<(Seq<char>, Seq<char>), NetError> {
    match parsed {
        Ok(pair) => Ok((pair.0@, pair.1@)),
        Err(e) => Err(e),
    }
}

/// Splits `user:password` at its colon. Fails unless there is exactly one.
pub fn parse_proxy_auth(text: &str) -> (parsed: Result<(String, String), NetError>)
    ensures
        auth_view(parsed) == spec_proxy_auth(text@),
{
    match split_once(text, ':') {
        Some(pair) => Ok(pair),
        None => Err(NetError::InvalidNetworkAddress),
    }
}

/// Joins a fixed text and a value.
pub fn join(prefix: &str, value: &str) -> (text: String)
    ensures
        text@ == prefix@ + value@,
{
    String::from_str(prefix).concat(value)
}

} // verus!
