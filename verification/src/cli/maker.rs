//! The Maker launcher's arguments. The launcher reads them with its own
//! argument parser; here they are held to the values that are allowed.

use vstd::prelude::*;
use vstd::string::*;
use crate::cli::{spec_connection_type, spec_rpc_network, ConnectionType, RpcNetwork};

verus! {

/// The Maker launcher's arguments, as read.
#[derive(Debug)]
pub struct MakerArgs {
    pub network: String,
    pub data_directory: Option<String>,
    pub rpc: String,
    pub auth: (String, String),
    pub rpc_network: String,
    pub wallet_name: Option<String>,
}

impl MakerArgs {
    /// The arguments that stand where none is given.
    pub fn defaults() -> (args: MakerArgs)
        ensures
            args.network@ == "tor"@,
            args.data_directory is None,
            args.rpc@ == "127.0.0.1:18443"@,
            args.auth.0@ == "user"@,
            args.auth.1@ == "password"@,
            args.rpc_network@ == "regtest"@,
            args.wallet_name is None,
    {
        MakerArgs {
            network: String::from_str("tor"),
            data_directory: None,
            rpc: String::from_str("127.0.0.1:18443"),
            auth: (String::from_str("user"), String::from_str("password")),
            rpc_network: String::from_str("regtest"),
            wallet_name: None,
        }
    }

    /// The transport and the node's network that the arguments name, where
    /// both names are known.
    pub fn networks(&self) -> (named: Option<(ConnectionType, RpcNetwork)>)
        ensures
            named is Some <==> spec_connection_type(self.network@) is Ok && spec_rpc_network(
                self.rpc_network@,
            ) is Some,
            named matches Some(n) ==> Ok::<ConnectionType, crate::cli::NetError>(n.0)
                == spec_connection_type(self.network@) && Some(n.1) == spec_rpc_network(
                self.rpc_network@,
            ),
    {
        match (
            ConnectionType::from_str(self.network.as_str()),
            RpcNetwork::from_name(self.rpc_network.as_str()),
        ) {
            (Ok(connection), Some(network)) => Some((connection, network)),
            _ => None,
        }
    }
}

} // verus!
