//! The arguments of the Directory launcher.

use vstd::prelude::*;
use vstd::string::*;
use crate::cli::{join, parse_proxy_auth, spec_message, spec_proxy_auth};
use crate::text::str_equal;

verus! {

/// The Directory launcher's arguments.
#[derive(Debug)]
pub struct DirectoryArgs {
    pub network: String,
    pub data_directory: Option<String>,
    pub rpc: String,
    pub auth: (String, String),
    pub rpc_network: String,
}

/// What a `DirectoryArgs` holds.
pub struct DirectoryArgsView {
    pub network: Seq<char>,
    pub data_directory: Option<Seq<char>>,
    pub rpc: Seq<char>,
    pub auth: (Seq<char>, Seq<char>),
    pub rpc_network: Seq<char>,
}

impl View for DirectoryArgs {
    type V = DirectoryArgsView;

    open spec fn view(&self) -> DirectoryArgsView {
        DirectoryArgsView {
            network: self.network@,
            data_directory: match self.data_directory {
                Some(d) => Some(d@),
                None => None,
            },
            rpc: self.rpc@,
            auth: (self.auth.0@, self.auth.1@),
            rpc_network: self.rpc_network@,
        }
    }
}

/// The options of the Directory launcher.
#[derive(Clone, Copy, Debug, PartialEq, Eq, Structural)]
pub enum DirectoryOption {
    Network,
    DataDirectory,
    Rpc,
    Auth,
    RpcNetwork,
}

/// The option that an argument names.
pub open spec fn spec_option(arg: Seq<char>) -> Option<DirectoryOption> {
    if arg == "-n"@ || arg == "--network"@ {
        Some(DirectoryOption::Network)
    } else if arg == "-d"@ || arg == "--data-directory"@ {
        Some(DirectoryOption::DataDirectory)
    } else if arg == "-r"@ || arg == "--rpc"@ {
        Some(DirectoryOption::Rpc)
    } else if arg == "-a"@ || arg == "--auth"@ {
        Some(DirectoryOption::Auth)
    } else if arg == "--rpc_network"@ {
        Some(DirectoryOption::RpcNetwork)
    } else {
        None
    }
}

/// The words by which an option is named in the error for a missing value.
pub open spec fn spec_option_name(option: DirectoryOption) -> Seq<char> {
    match option {
        DirectoryOption::Network => "network"@,
        DirectoryOption::DataDirectory => "data-directory"@,
        DirectoryOption::Rpc => "rpc"@,
        DirectoryOption::Auth => "auth"@,
        DirectoryOption::RpcNetwork => "rpc_network"@,
    }
}

/// The arguments that stand where none is given.
pub open spec fn spec_defaults() -> DirectoryArgsView {
    DirectoryArgsView {
        network: "clearnet"@,
        data_directory: None,
        rpc: "127.0.0.1:18443"@,
        auth: ("user"@, "password"@),
        rpc_network: "regtest"@,
    }
}

/// What an option with its value does to the arguments read so far: the
/// value takes the option's place, or is refused.
pub open spec fn spec_set(read: DirectoryArgsView, option: DirectoryOption, value: Seq<char>) -> Result<
    DirectoryArgsView,
    Seq<char>,
> {
    match option {
        DirectoryOption::Network => if value == "tor"@ || value == "clearnet"@ {
            Ok(DirectoryArgsView { network: value, ..read })
        } else {
            Err("Invalid value for network: "@ + value)
        },
        DirectoryOption::DataDirectory => Ok(
            DirectoryArgsView { data_directory: Some(value), ..read },
        ),
        DirectoryOption::Rpc => Ok(DirectoryArgsView { rpc: value, ..read }),
        DirectoryOption::Auth => match spec_proxy_auth(value) {
            Ok(pair) => Ok(DirectoryArgsView { auth: pair, ..read }),
            Err(e) => Err(spec_message(e)),
        },
        DirectoryOption::RpcNetwork => if value == "regtest"@ || value == "signet"@ || value
            == "mainnet"@ {
            Ok(DirectoryArgsView { rpc_network: value, ..read })
        } else {
            Err("Invalid value for rpc_network: "@ + value)
        },
    }
}

/// What reading the arguments from place `at` on gives, with `read` read so
/// far. Every option takes the argument after it as its value; the first
/// argument that is refused ends the reading.
pub open spec fn spec_parse_from(args: Seq<Seq<char>>, at: int, read: DirectoryArgsView) -> Result<
    DirectoryArgsView,
    Seq<char>,
>
    decreases args.len() - at,
{
    if at < 0 || at >= args.len() {
        Ok(read)
    } else {
        match spec_option(args[at]) {
            None => Err("Unknown argument: "@ + args[at]),
            Some(option) => if at + 1 >= args.len() {
                Err("Missing value for "@ + spec_option_name(option))
            } else {
                match spec_set(read, option, args[at + 1]) {
                    Ok(more) => spec_parse_from(args, at + 2, more),
                    Err(e) => Err(e),
                }
            },
        }
    }
}

/// What reading all the arguments gives.
pub open spec fn spec_parse_args(args: Seq<Seq<char>>) -> Result<DirectoryArgsView, Seq<char>> {
    spec_parse_from(args, 0, spec_defaults())
}

/// What the outcome of reading holds.
pub open spec fn outcome_view(outcome: Result<DirectoryArgs, String>) -> Result<DirectoryArgsView, Seq<char>> {
    match outcome {
        Ok(args) => Ok(args@),
        Err(e) => Err(e@),
    }
}

/// What a list of arguments holds.
pub open spec fn args_view(args: &Vec<String>) -> Seq<Seq<char>> {
    args@.map_values(|a: String| a@)
}

/// The option that an argument names.
pub fn option_of(arg: &str) -> (option: Option<DirectoryOption>)
    ensures
        option == spec_option(arg@),
{
    if str_equal(arg, "-n") || str_equal(arg, "--network") {
        Some(DirectoryOption::Network)
    } else if str_equal(arg, "-d") || str_equal(arg, "--data-directory") {
        Some(DirectoryOption::DataDirectory)
    } else if str_equal(arg, "-r") || str_equal(arg, "--rpc") {
        Some(DirectoryOption::Rpc)
    } else if str_equal(arg, "-a") || str_equal(arg, "--auth") {
        Some(DirectoryOption::Auth)
    } else if str_equal(arg, "--rpc_network") {
        Some(DirectoryOption::RpcNetwork)
    } else {
        None
    }
}

/// The error for an option without a value.
pub fn missing_value(option: DirectoryOption) -> (text: String)
    ensures
        text@ == "Missing value for "@ + spec_option_name(option),
{
    let name: &str = match option {
        DirectoryOption::Network => "network",
        DirectoryOption::DataDirectory => "data-directory",
        DirectoryOption::Rpc => "rpc",
        DirectoryOption::Auth => "auth",
        DirectoryOption::RpcNetwork => "rpc_network",
    };
    join("Missing value for ", name)
}

/// Puts an option's value in its place, or refuses it.
pub fn set_option(read: DirectoryArgs, option: DirectoryOption, value: &str) -> (next: Result<
    DirectoryArgs,
    String,
>)
    ensures
        outcome_view(next) == spec_set(read@, option, value@),
{
    let mut args = read;
    match option {
        DirectoryOption::Network => {
            if str_equal(value, "tor") || str_equal(value, "clearnet") {
                args.network = value.to_owned();
                Ok(args)
            } else {
                Err(join("Invalid value for network: ", value))
            }
        },
        DirectoryOption::DataDirectory => {
            args.data_directory = Some(value.to_owned());
            Ok(args)
        },
        DirectoryOption::Rpc => {
            args.rpc = value.to_owned();
            Ok(args)
        },
        DirectoryOption::Auth => match parse_proxy_auth(value) {
            Ok(pair) => {
                args.auth = pair;
                Ok(args)
            },
            Err(e) => Err(e.message()),
        },
        DirectoryOption::RpcNetwork => {
            if str_equal(value, "regtest") || str_equal(value, "signet") || str_equal(
                value,
                "mainnet",
            ) {
                args.rpc_network = value.to_owned();
                Ok(args)
            } else {
                Err(join("Invalid value for rpc_network: ", value))
            }
        },
    }
}

/// The arguments that stand where none is given.
pub fn defaults() -> (args: DirectoryArgs)
    ensures
        args@ == spec_defaults(),
{
    DirectoryArgs {
        network: String::from_str("clearnet"),
        data_directory: None,
        rpc: String::from_str("127.0.0.1:18443"),
        auth: (String::from_str("user"), String::from_str("password")),
        rpc_network: String::from_str("regtest"),
    }
}

/// Reads the launcher's arguments, the program's name left out.
pub fn parse_args(args: &Vec<String>) -> (parsed: Result<DirectoryArgs, String>)
    ensures
        outcome_view(parsed) == spec_parse_args(args_view(args)),
{
    parse_from(args, 0, defaults())
}

/// Reads the arguments from place `at` on.
pub fn parse_from(args: &Vec<String>, at: usize, read: DirectoryArgs) -> (parsed: Result<
    DirectoryArgs,
    String,
>)
    ensures
        outcome_view(parsed) == spec_parse_from(args_view(args), at as int, read@),
    decreases args@.len() - at,
{
    if at >= args.len() {
        return Ok(read);
    }
    assert(args_view(args)[at as int] == args@[at as int]@);
    let option = match option_of(args[at].as_str()) {
        Some(option) => option,
        None => {
            return Err(join("Unknown argument: ", args[at].as_str()));
        },
    };
    if at + 1 >= args.len() {
        return Err(missing_value(option));
    }
    assert(args_view(args)[at + 1] == args@[at + 1]@);
    let next = set_option(read, option, args[at + 1].as_str());
    match next {
        Ok(more) => parse_from(args, at + 2, more),
        Err(e) => Err(e),
    }
}

} // verus!
