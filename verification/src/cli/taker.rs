//! The arguments of the Taker launcher.

use vstd::prelude::*;
use vstd::string::*;
use crate::cli::directory::args_view;
use crate::cli::{join, parse_proxy_auth, spec_message, spec_proxy_auth};
use crate::taker::SwapParams;
use crate::text::{parse_decimal, spec_parse_decimal, str_equal};

verus! {

/// The Taker launcher's arguments.
#[derive(Debug)]
pub struct TakerArgs {
    pub connection_type: String,
    pub data_directory: Option<String>,
    pub rpc: String,
    pub auth: (String, String),
    pub bitcoin_network: String,
    pub wallet_name: Option<String>,
    pub verbosity: Option<String>,
    pub maker_count: usize,
    pub send_amount: u64,
    pub tx_count: u32,
    pub required_confirms: u64,
    /// The wallet query to answer after the swap, if any.
    pub command: String,
    /// What follows the command.
    pub command_args: Vec<String>,
}

/// What a `TakerArgs` holds.
pub struct TakerArgsView {
    pub connection_type: Seq<char>,
    pub data_directory: Option<Seq<char>>,
    pub rpc: Seq<char>,
    pub auth: (Seq<char>, Seq<char>),
    pub bitcoin_network: Seq<char>,
    pub wallet_name: Option<Seq<char>>,
    pub verbosity: Option<Seq<char>>,
    pub maker_count: usize,
    pub send_amount: u64,
    pub tx_count: u32,
    pub required_confirms: u64,
    pub command: Seq<char>,
    pub command_args: Seq<Seq<char>>,
}

/// What an optional text holds.
pub open spec fn text_view(text: Option<String>) -> Option<Seq<char>> {
    match text {
        Some(t) => Some(t@),
        None => None,
    }
}

impl View for TakerArgs {
    type V = TakerArgsView;

    open spec fn view(&self) -> TakerArgsView {
        TakerArgsView {
            connection_type: self.connection_type@,
            data_directory: text_view(self.data_directory),
            rpc: self.rpc@,
            auth: (self.auth.0@, self.auth.1@),
            bitcoin_network: self.bitcoin_network@,
            wallet_name: text_view(self.wallet_name),
            verbosity: text_view(self.verbosity),
            maker_count: self.maker_count,
            send_amount: self.send_amount,
            tx_count: self.tx_count,
            required_confirms: self.required_confirms,
            command: self.command@,
            command_args: args_view(&self.command_args),
        }
    }
}

/// The options of the Taker launcher. The first seven must be followed by a
/// value; the last four are read only where a value follows.
#[derive(Clone, Copy, Debug, PartialEq, Eq, Structural)]
pub enum TakerOption {
    ConnectionType,
    DataDirectory,
    Rpc,
    Auth,
    BitcoinNetwork,
    WalletName,
    Verbosity,
    MakerCount,
    SendAmount,
    TxCount,
    RequiredConfirms,
}

/// The option that an argument names.
pub open spec fn spec_option(arg: Seq<char>) -> Option<TakerOption> {
    if arg == "-c"@ || arg == "--connection-type"@ {
        Some(TakerOption::ConnectionType)
    } else if arg == "-d"@ || arg == "--data-directory"@ {
        Some(TakerOption::DataDirectory)
    } else if arg == "-r"@ || arg == "--rpc"@ {
        Some(TakerOption::Rpc)
    } else if arg == "-a"@ || arg == "--auth"@ {
        Some(TakerOption::Auth)
    } else if arg == "-b"@ || arg == "--bitcoin-network"@ {
        Some(TakerOption::BitcoinNetwork)
    } else if arg == "-w"@ || arg == "--wallet-name"@ {
        Some(TakerOption::WalletName)
    } else if arg == "-v"@ || arg == "--verbosity"@ {
        Some(TakerOption::Verbosity)
    } else if arg == "maker_count"@ {
        Some(TakerOption::MakerCount)
    } else if arg == "send_amount"@ {
        Some(TakerOption::SendAmount)
    } else if arg == "tx_count"@ {
        Some(TakerOption::TxCount)
    } else if arg == "required_confirms"@ {
        Some(TakerOption::RequiredConfirms)
    } else {
        None
    }
}

/// Whether the option names a number of the swap.
pub open spec fn spec_is_number(option: TakerOption) -> bool {
    option == TakerOption::MakerCount || option == TakerOption::SendAmount || option
        == TakerOption::TxCount || option == TakerOption::RequiredConfirms
}

/// The words by which an option is named in the error for a missing value.
pub open spec fn spec_option_name(option: TakerOption) -> Seq<char> {
    match option {
        TakerOption::ConnectionType => "connection type"@,
        TakerOption::DataDirectory => "data directory"@,
        TakerOption::Rpc => "RPC"@,
        TakerOption::Auth => "auth"@,
        TakerOption::BitcoinNetwork => "bitcoin network"@,
        TakerOption::WalletName => "wallet name"@,
        TakerOption::Verbosity => "verbosity"@,
        TakerOption::MakerCount => "maker count"@,
        TakerOption::SendAmount => "send amount"@,
        TakerOption::TxCount => "tx count"@,
        TakerOption::RequiredConfirms => "required confirms"@,
    }
}

/// The error for a number that cannot be read.
pub open spec fn spec_invalid(option: TakerOption) -> Seq<char> {
    "Invalid "@ + spec_option_name(option)
}

/// The error for an option without a value.
pub open spec fn spec_missing(option: TakerOption) -> Seq<char> {
    "Missing value for "@ + spec_option_name(option)
}

/// The arguments that stand where none is given.
pub open spec fn spec_defaults() -> TakerArgsView {
    TakerArgsView {
        connection_type: "tor"@,
        data_directory: None,
        rpc: "127.0.0.1:18443"@,
        auth: ("user"@, "password"@),
        bitcoin_network: "regtest"@,
        wallet_name: None,
        verbosity: None,
        maker_count: 2,
        send_amount: 500_000,
        tx_count: 3,
        required_confirms: 1000,
        command: Seq::<char>::empty(),
        command_args: Seq::<Seq<char>>::empty(),
    }
}

/// What an option with its value does to the arguments read so far: the
/// value takes the option's place, or is refused.
pub open spec fn spec_set(read: TakerArgsView, option: TakerOption, value: Seq<char>) -> Result<
    TakerArgsView,
    Seq<char>,
> {
    match option {
        TakerOption::ConnectionType => if value == "tor"@ || value == "clearnet"@ {
            Ok(TakerArgsView { connection_type: value, ..read })
        } else {
            Err("Invalid connection type: "@ + value)
        },
        TakerOption::DataDirectory => Ok(TakerArgsView { data_directory: Some(value), ..read }),
        TakerOption::Rpc => Ok(TakerArgsView { rpc: value, ..read }),
        TakerOption::Auth => match spec_proxy_auth(value) {
            Ok(pair) => Ok(TakerArgsView { auth: pair, ..read }),
            Err(e) => Err(spec_message(e)),
        },
        TakerOption::BitcoinNetwork => if value == "regtest"@ || value == "signet"@ || value
            == "mainnet"@ {
            Ok(TakerArgsView { bitcoin_network: value, ..read })
        } else {
            Err("Invalid bitcoin network: "@ + value)
        },
        TakerOption::WalletName => Ok(TakerArgsView { wallet_name: Some(value), ..read }),
        TakerOption::Verbosity => Ok(TakerArgsView { verbosity: Some(value), ..read }),
        TakerOption::MakerCount => match spec_parse_decimal(value, usize::MAX as u64) {
            Some(n) => Ok(TakerArgsView { maker_count: n as usize, ..read }),
            None => Err(spec_invalid(option)),
        },
        TakerOption::SendAmount => match spec_parse_decimal(value, u64::MAX) {
            Some(n) => Ok(TakerArgsView { send_amount: n, ..read }),
            None => Err(spec_invalid(option)),
        },
        TakerOption::TxCount => match spec_parse_decimal(value, u32::MAX as u64) {
            Some(n) => Ok(TakerArgsView { tx_count: n as u32, ..read }),
            None => Err(spec_invalid(option)),
        },
        TakerOption::RequiredConfirms => match spec_parse_decimal(value, u64::MAX) {
            Some(n) => Ok(TakerArgsView { required_confirms: n, ..read }),
            None => Err(spec_invalid(option)),
        },
    }
}

/// What an argument that names no option does: the first one that is not
/// empty becomes the command, and every one while a command stands is added
/// to what follows the command.
pub open spec fn spec_word(read: TakerArgsView, word: Seq<char>) -> TakerArgsView {
    if read.command.len() == 0 {
        TakerArgsView { command: word, ..read }
    } else {
        TakerArgsView { command_args: read.command_args.push(word), ..read }
    }
}

/// What reading the arguments from place `at` on gives, with `read` read so
/// far. An option takes the argument after it as its value; without one, a
/// number's name is passed over and any other option is an error.
pub open spec fn spec_parse_from(args: Seq<Seq<char>>, at: int, read: TakerArgsView) -> Result<
    TakerArgsView,
    Seq<char>,
>
    decreases args.len() - at,
{
    if at < 0 || at >= args.len() {
        Ok(read)
    } else {
        match spec_option(args[at]) {
            None => spec_parse_from(args, at + 1, spec_word(read, args[at])),
            Some(option) => if at + 1 >= args.len() {
                if spec_is_number(option) {
                    Ok(read)
                } else {
                    Err(spec_missing(option))
                }
            } else {
                match spec_set(read, option, args[at + 1]) {
                    Ok(more) => spec_parse_from(args, at + 2, more),
                    Err(e) => Err(e),
                }
            },
        }
    }
}

/// What reading all the arguments gives.
pub open spec fn spec_parse_args(args: Seq<Seq<char>>) -> Result<TakerArgsView, Seq<char>> {
    spec_parse_from(args, 0, spec_defaults())
}

/// What the outcome of reading holds.
pub open spec fn outcome_view(outcome: Result<TakerArgs, String>) -> Result<TakerArgsView, Seq<char>> {
    match outcome {
        Ok(args) => Ok(args@),
        Err(e) => Err(e@),
    }
}

/// The option that an argument names.
pub fn option_of(arg: &str) -> (option: Option<TakerOption>)
    ensures
        option == spec_option(arg@),
{
    if str_equal(arg, "-c") || str_equal(arg, "--connection-type") {
        Some(TakerOption::ConnectionType)
    } else if str_equal(arg, "-d") || str_equal(arg, "--data-directory") {
        Some(TakerOption::DataDirectory)
    } else if str_equal(arg, "-r") || str_equal(arg, "--rpc") {
        Some(TakerOption::Rpc)
    } else if str_equal(arg, "-a") || str_equal(arg, "--auth") {
        Some(TakerOption::Auth)
    } else if str_equal(arg, "-b") || str_equal(arg, "--bitcoin-network") {
        Some(TakerOption::BitcoinNetwork)
    } else if str_equal(arg, "-w") || str_equal(arg, "--wallet-name") {
        Some(TakerOption::WalletName)
    } else if str_equal(arg, "-v") || str_equal(arg, "--verbosity") {
        Some(TakerOption::Verbosity)
    } else if str_equal(arg, "maker_count") {
        Some(TakerOption::MakerCount)
    } else if str_equal(arg, "send_amount") {
        Some(TakerOption::SendAmount)
    } else if str_equal(arg, "tx_count") {
        Some(TakerOption::TxCount)
    } else if str_equal(arg, "required_confirms") {
        Some(TakerOption::RequiredConfirms)
    } else {
        None
    }
}

/// Whether the option names a number of the swap.
pub fn is_number(option: TakerOption) -> (number: bool)
    ensures
        number == spec_is_number(option),
{
    match option {
        TakerOption::MakerCount
        | TakerOption::SendAmount
        | TakerOption::TxCount
        | TakerOption::RequiredConfirms => true,
        _ => false,
    }
}

/// The words by which an option is named in errors.
pub fn option_name(option: TakerOption) -> (name: &'static str)
    ensures
        name@ == spec_option_name(option),
{
    match option {
        TakerOption::ConnectionType => "connection type",
        TakerOption::DataDirectory => "data directory",
        TakerOption::Rpc => "RPC",
        TakerOption::Auth => "auth",
        TakerOption::BitcoinNetwork => "bitcoin network",
        TakerOption::WalletName => "wallet name",
        TakerOption::Verbosity => "verbosity",
        TakerOption::MakerCount => "maker count",
        TakerOption::SendAmount => "send amount",
        TakerOption::TxCount => "tx count",
        TakerOption::RequiredConfirms => "required confirms",
    }
}

/// Puts an option's value in its place, or refuses it.
pub fn set_option(read: TakerArgs, option: TakerOption, value: &str) -> (next: Result<TakerArgs, String>)
    ensures
        outcome_view(next) == spec_set(read@, option, value@),
{
    let mut args = read;
    match option {
        TakerOption::ConnectionType => {
            if str_equal(value, "tor") || str_equal(value, "clearnet") {
                args.connection_type = value.to_owned();
                Ok(args)
            } else {
                Err(join("Invalid connection type: ", value))
            }
        },
        TakerOption::DataDirectory => {
            args.data_directory = Some(value.to_owned());
            Ok(args)
        },
        TakerOption::Rpc => {
            args.rpc = value.to_owned();
            Ok(args)
        },
        TakerOption::Auth => match parse_proxy_auth(value) {
            Ok(pair) => {
                args.auth = pair;
                Ok(args)
            },
            Err(e) => Err(e.message()),
        },
        TakerOption::BitcoinNetwork => {
            if str_equal(value, "regtest") || str_equal(value, "signet") || str_equal(
                value,
                "mainnet",
            ) {
                args.bitcoin_network = value.to_owned();
                Ok(args)
            } else {
                Err(join("Invalid bitcoin network: ", value))
            }
        },
        TakerOption::WalletName => {
            args.wallet_name = Some(value.to_owned());
            Ok(args)
        },
        TakerOption::Verbosity => {
            args.verbosity = Some(value.to_owned());
            Ok(args)
        },
        TakerOption::MakerCount => match parse_decimal(value, usize::MAX as u64) {
            Some(n) => {
                args.maker_count = n as usize;
                Ok(args)
            },
            None => Err(join("Invalid ", option_name(option))),
        },
        TakerOption::SendAmount => match parse_decimal(value, u64::MAX) {
            Some(n) => {
                args.send_amount = n;
                Ok(args)
            },
            None => Err(join("Invalid ", option_name(option))),
        },
        TakerOption::TxCount => match parse_decimal(value, u32::MAX as u64) {
            Some(n) => {
                args.tx_count = n as u32;
                Ok(args)
            },
            None => Err(join("Invalid ", option_name(option))),
        },
        TakerOption::RequiredConfirms => match parse_decimal(value, u64::MAX) {
            Some(n) => {
                args.required_confirms = n;
                Ok(args)
            },
            None => Err(join("Invalid ", option_name(option))),
        },
    }
}

/// Takes an argument that names no option.
pub fn take_word(read: TakerArgs, word: &str) -> (next: TakerArgs)
    ensures
        next@ == spec_word(read@, word@),
{
    let mut args = read;
    if args.command.as_str().is_empty() {
        args.command = word.to_owned();
    } else {
        let ghost before = args_view(&args.command_args);
        args.command_args.push(word.to_owned());
        assert(args_view(&args.command_args) =~= before.push(word@));
    }
    args
}

/// The arguments that stand where none is given.
pub fn defaults() -> (args: TakerArgs)
    ensures
        args@ == spec_defaults(),
{
    let args = TakerArgs {
        connection_type: String::from_str("tor"),
        data_directory: None,
        rpc: String::from_str("127.0.0.1:18443"),
        auth: (String::from_str("user"), String::from_str("password")),
        bitcoin_network: String::from_str("regtest"),
        wallet_name: None,
        verbosity: None,
        maker_count: 2,
        send_amount: 500_000,
        tx_count: 3,
        required_confirms: 1000,
        command: String::new(),
        command_args: Vec::new(),
    };
    assert(args_view(&args.command_args) =~= Seq::<Seq<char>>::empty());
    args
}

/// Reads the launcher's arguments, the program's name left out.
pub fn parse_args(args: &Vec<String>) -> (parsed: Result<TakerArgs, String>)
    ensures
        outcome_view(parsed) == spec_parse_args(args_view(args)),
{
    parse_from(args, 0, defaults())
}

/// Reads the arguments from place `at` on.
pub fn parse_from(args: &Vec<String>, at: usize, read: TakerArgs) -> (parsed: Result<TakerArgs, String>)
    ensures
        outcome_view(parsed) == spec_parse_from(args_view(args), at as int, read@),
    decreases args@.len() - at,
{
    if at >= args.len() {
        return Ok(read);
    }
    assert(args_view(args)[at as int] == args@[at as int]@);
    let option = match option_of(args[at].as_str()) {
        Some(option) => option,
        None => {
            let next = take_word(read, args[at].as_str());
            return parse_from(args, at + 1, next);
        },
    };
    if at + 1 >= args.len() {
        if is_number(option) {
            return Ok(read);
        }
        return Err(join("Missing value for ", option_name(option)));
    }
    assert(args_view(args)[at + 1] == args@[at + 1]@);
    match set_option(read, option, args[at + 1].as_str()) {
        Ok(more) => parse_from(args, at + 2, more),
        Err(e) => Err(e),
    }
}

impl TakerArgs {
    /// The swap that the arguments ask for.
    pub fn swap_params(&self) -> (params: SwapParams)
        ensures
            params == (SwapParams {
                send_amount: self.send_amount,
                maker_count: self.maker_count,
                tx_count: self.tx_count,
                required_confirms: self.required_confirms,
            }),
    {
        SwapParams {
            send_amount: self.send_amount,
            maker_count: self.maker_count,
            tx_count: self.tx_count,
            required_confirms: self.required_confirms,
        }
    }
}

/// The wallet queries that the launcher answers after the swap.
#[derive(Clone, Copy, Debug, PartialEq, Eq, Structural)]
pub enum WalletQuery {
    SeedUtxo,
    SwapUtxo,
    ContractUtxo,
    ContractBalance,
    SwapBalance,
    SeedBalance,
    TotalBalance,
    GetNewAddress,
}

/// The wallet query that a command names.
pub open spec fn spec_wallet_query(command: Seq<char>) -> Option<WalletQuery> {
    if command == "SeedUtxo"@ {
        Some(WalletQuery::SeedUtxo)
    } else if command == "SwapUtxo"@ {
        Some(WalletQuery::SwapUtxo)
    } else if command == "ContractUtxo"@ {
        Some(WalletQuery::ContractUtxo)
    } else if command == "ContractBalance"@ {
        Some(WalletQuery::ContractBalance)
    } else if command == "SwapBalance"@ {
        Some(WalletQuery::SwapBalance)
    } else if command == "SeedBalance"@ {
        Some(WalletQuery::SeedBalance)
    } else if command == "TotalBalance"@ {
        Some(WalletQuery::TotalBalance)
    } else if command == "GetNewAddress"@ {
        Some(WalletQuery::GetNewAddress)
    } else {
        None
    }
}

impl WalletQuery {
    /// Reads a command's name. Any other command is passed over.
    pub fn from_name(command: &str) -> (query: Option<WalletQuery>)
        ensures
            query == spec_wallet_query(command@),
    {
        if str_equal(command, "SeedUtxo") {
            Some(WalletQuery::SeedUtxo)
        } else if str_equal(command, "SwapUtxo") {
            Some(WalletQuery::SwapUtxo)
        } else if str_equal(command, "ContractUtxo") {
            Some(WalletQuery::ContractUtxo)
        } else if str_equal(command, "ContractBalance") {
            Some(WalletQuery::ContractBalance)
        } else if str_equal(command, "SwapBalance") {
            Some(WalletQuery::SwapBalance)
        } else if str_equal(command, "SeedBalance") {
            Some(WalletQuery::SeedBalance)
        } else if str_equal(command, "TotalBalance") {
            Some(WalletQuery::TotalBalance)
        } else if str_equal(command, "GetNewAddress") {
            Some(WalletQuery::GetNewAddress)
        } else {
            None
        }
    }
}

} // verus!
