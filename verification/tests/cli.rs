use coinswap::cli::directory;
use coinswap::cli::maker::MakerArgs;
use coinswap::cli::taker;
use coinswap::cli::taker::WalletQuery;
use coinswap::cli::{parse_proxy_auth, ConnectionType, NetError, RpcNetwork};
use coinswap::taker::SwapParams;

fn args(words: &[&str]) -> Vec<String> {
    words.iter().map(|w| w.to_string()).collect()
}

#[test]
fn proxy_auth_is_split_at_its_only_colon() {
    assert_eq!(parse_proxy_auth("user:password"), Ok(("user".to_string(), "password".to_string())));
    assert_eq!(parse_proxy_auth("a:"), Ok(("a".to_string(), "".to_string())));
    assert_eq!(parse_proxy_auth(":b"), Ok(("".to_string(), "b".to_string())));
    assert_eq!(parse_proxy_auth(":"), Ok(("".to_string(), "".to_string())));
    assert_eq!(parse_proxy_auth("üser:pässword"), Ok(("üser".to_string(), "pässword".to_string())));
    assert_eq!(parse_proxy_auth("userpassword"), Err(NetError::InvalidNetworkAddress));
    assert_eq!(parse_proxy_auth(""), Err(NetError::InvalidNetworkAddress));
    assert_eq!(parse_proxy_auth("a:b:c"), Err(NetError::InvalidNetworkAddress));
    assert_eq!(parse_proxy_auth("a::c"), Err(NetError::InvalidNetworkAddress));
}

#[test]
fn connection_type_is_read_by_name() {
    assert_eq!(ConnectionType::from_str("tor"), Ok(ConnectionType::TOR));
    assert_eq!(ConnectionType::from_str("clearnet"), Ok(ConnectionType::CLEARNET));
    assert_eq!(ConnectionType::from_str("Tor"), Err(NetError::InvalidAppNetwork));
    assert_eq!(ConnectionType::from_str(""), Err(NetError::InvalidAppNetwork));
    assert_eq!(NetError::InvalidAppNetwork.message(), "InvalidAppNetwork");
    assert_eq!(NetError::InvalidNetworkAddress.message(), "InvalidNetworkAddress");
}

#[test]
fn rpc_network_is_read_by_name() {
    assert_eq!(RpcNetwork::from_name("regtest"), Some(RpcNetwork::Regtest));
    assert_eq!(RpcNetwork::from_name("signet"), Some(RpcNetwork::Signet));
    assert_eq!(RpcNetwork::from_name("mainnet"), Some(RpcNetwork::Mainnet));
    assert_eq!(RpcNetwork::from_name("testnet"), None);
}

#[test]
fn directory_defaults_stand_without_arguments() {
    let parsed = directory::parse_args(&args(&[])).unwrap();
    assert_eq!(parsed.network, "clearnet");
    assert_eq!(parsed.data_directory, None);
    assert_eq!(parsed.rpc, "127.0.0.1:18443");
    assert_eq!(parsed.auth, ("user".to_string(), "password".to_string()));
    assert_eq!(parsed.rpc_network, "regtest");
}

#[test]
fn directory_options_take_the_next_argument() {
    let parsed = directory::parse_args(&args(&[
        "-n", "tor", "--data-directory", "/tmp/dns", "-r", "10.0.0.1:8332", "--auth", "alice:secret",
        "--rpc_network", "signet",
    ]))
    .unwrap();
    assert_eq!(parsed.network, "tor");
    assert_eq!(parsed.data_directory, Some("/tmp/dns".to_string()));
    assert_eq!(parsed.rpc, "10.0.0.1:8332");
    assert_eq!(parsed.auth, ("alice".to_string(), "secret".to_string()));
    assert_eq!(parsed.rpc_network, "signet");
    let long = directory::parse_args(&args(&["--network", "clearnet", "-d", "x", "--rpc", "y", "-a", "u:p"]))
        .unwrap();
    assert_eq!(long.network, "clearnet");
    assert_eq!(long.data_directory, Some("x".to_string()));
    assert_eq!(long.rpc, "y");
    assert_eq!(long.auth, ("u".to_string(), "p".to_string()));
}

#[test]
fn directory_later_options_replace_earlier_ones() {
    let parsed = directory::parse_args(&args(&["-r", "a", "-r", "b"])).unwrap();
    assert_eq!(parsed.rpc, "b");
    // a value is taken as it stands, also where it looks like an option
    let odd = directory::parse_args(&args(&["-d", "-n"])).unwrap();
    assert_eq!(odd.data_directory, Some("-n".to_string()));
}

#[test]
fn directory_errors_name_what_is_wrong() {
    let cases = [
        (vec!["-n", "i2p"], "Invalid value for network: i2p"),
        (vec!["-n"], "Missing value for network"),
        (vec!["--network"], "Missing value for network"),
        (vec!["-d"], "Missing value for data-directory"),
        (vec!["-r"], "Missing value for rpc"),
        (vec!["-a"], "Missing value for auth"),
        (vec!["-a", "nocolon"], "InvalidNetworkAddress"),
        (vec!["--rpc_network", "testnet"], "Invalid value for rpc_network: testnet"),
        (vec!["--rpc_network"], "Missing value for rpc_network"),
        (vec!["--verbose"], "Unknown argument: --verbose"),
        (vec!["-n", "tor", "extra"], "Unknown argument: extra"),
        (vec!["-r", "a", "-n", "bad", "--nonsense"], "Invalid value for network: bad"),
    ];
    for (words, message) in cases {
        assert_eq!(directory::parse_args(&args(&words)).err(), Some(message.to_string()));
    }
}

#[test]
fn taker_defaults_stand_without_arguments() {
    let parsed = taker::parse_args(&args(&[])).unwrap();
    assert_eq!(parsed.connection_type, "tor");
    assert_eq!(parsed.data_directory, None);
    assert_eq!(parsed.rpc, "127.0.0.1:18443");
    assert_eq!(parsed.auth, ("user".to_string(), "password".to_string()));
    assert_eq!(parsed.bitcoin_network, "regtest");
    assert_eq!(parsed.wallet_name, None);
    assert_eq!(parsed.verbosity, None);
    assert_eq!(parsed.maker_count, 2);
    assert_eq!(parsed.send_amount, 500_000);
    assert_eq!(parsed.tx_count, 3);
    assert_eq!(parsed.required_confirms, 1000);
    assert_eq!(parsed.command, "");
    assert!(parsed.command_args.is_empty());
    assert_eq!(
        parsed.swap_params(),
        SwapParams { send_amount: 500_000, maker_count: 2, tx_count: 3, required_confirms: 1000 }
    );
}

#[test]
fn taker_options_numbers_and_command_are_read() {
    let parsed = taker::parse_args(&args(&[
        "-c", "clearnet", "-d", "/tmp/taker", "-r", "10.0.0.1:8332", "-a", "alice:secret", "-b",
        "mainnet", "-w", "mywallet", "-v", "debug", "maker_count", "3", "send_amount", "750000",
        "tx_count", "5", "required_confirms", "1", "SeedBalance", "more", "words",
    ]))
    .unwrap();
    assert_eq!(parsed.connection_type, "clearnet");
    assert_eq!(parsed.data_directory, Some("/tmp/taker".to_string()));
    assert_eq!(parsed.rpc, "10.0.0.1:8332");
    assert_eq!(parsed.auth, ("alice".to_string(), "secret".to_string()));
    assert_eq!(parsed.bitcoin_network, "mainnet");
    assert_eq!(parsed.wallet_name, Some("mywallet".to_string()));
    assert_eq!(parsed.verbosity, Some("debug".to_string()));
    assert_eq!(parsed.maker_count, 3);
    assert_eq!(parsed.send_amount, 750_000);
    assert_eq!(parsed.tx_count, 5);
    assert_eq!(parsed.required_confirms, 1);
    assert_eq!(parsed.command, "SeedBalance");
    assert_eq!(parsed.command_args, args(&["more", "words"]));
}

#[test]
fn taker_long_options_are_read() {
    let parsed = taker::parse_args(&args(&[
        "--connection-type", "tor", "--data-directory", "d", "--rpc", "r", "--auth", "u:p",
        "--bitcoin-network", "signet", "--wallet-name", "w", "--verbosity", "info",
    ]))
    .unwrap();
    assert_eq!(parsed.connection_type, "tor");
    assert_eq!(parsed.data_directory, Some("d".to_string()));
    assert_eq!(parsed.rpc, "r");
    assert_eq!(parsed.bitcoin_network, "signet");
    assert_eq!(parsed.wallet_name, Some("w".to_string()));
    assert_eq!(parsed.verbosity, Some("info".to_string()));
}

#[test]
fn taker_number_name_at_the_end_is_passed_over() {
    let parsed = taker::parse_args(&args(&["SwapUtxo", "maker_count"])).unwrap();
    assert_eq!(parsed.maker_count, 2);
    assert_eq!(parsed.command, "SwapUtxo");
    assert!(parsed.command_args.is_empty());
}

#[test]
fn taker_empty_word_leaves_the_command_open() {
    let parsed = taker::parse_args(&args(&["", "TotalBalance", "", "x"])).unwrap();
    assert_eq!(parsed.command, "TotalBalance");
    assert_eq!(parsed.command_args, args(&["", "x"]));
}

#[test]
fn taker_errors_name_what_is_wrong() {
    let cases = [
        (vec!["-c", "i2p"], "Invalid connection type: i2p"),
        (vec!["-c"], "Missing value for connection type"),
        (vec!["-d"], "Missing value for data directory"),
        (vec!["--rpc"], "Missing value for RPC"),
        (vec!["-a"], "Missing value for auth"),
        (vec!["-a", "a:b:c"], "InvalidNetworkAddress"),
        (vec!["-b", "testnet"], "Invalid bitcoin network: testnet"),
        (vec!["-b"], "Missing value for bitcoin network"),
        (vec!["-w"], "Missing value for wallet name"),
        (vec!["-v"], "Missing value for verbosity"),
        (vec!["maker_count", "two"], "Invalid maker count"),
        (vec!["maker_count", "-1"], "Invalid maker count"),
        (vec!["send_amount", "1.5"], "Invalid send amount"),
        (vec!["send_amount", "18446744073709551616"], "Invalid send amount"),
        (vec!["tx_count", "4294967296"], "Invalid tx count"),
        (vec!["tx_count", ""], "Invalid tx count"),
        (vec!["required_confirms", "1 "], "Invalid required confirms"),
    ];
    for (words, message) in cases {
        assert_eq!(taker::parse_args(&args(&words)).err(), Some(message.to_string()));
    }
}

#[test]
fn taker_numbers_are_read_to_their_limits() {
    let parsed = taker::parse_args(&args(&[
        "send_amount", "18446744073709551615", "tx_count", "4294967295", "required_confirms", "+0",
        "maker_count", "007",
    ]))
    .unwrap();
    assert_eq!(parsed.send_amount, u64::MAX);
    assert_eq!(parsed.tx_count, u32::MAX);
    assert_eq!(parsed.required_confirms, 0);
    assert_eq!(parsed.maker_count, 7);
}

#[test]
fn wallet_query_is_read_by_name() {
    assert_eq!(WalletQuery::from_name("SeedUtxo"), Some(WalletQuery::SeedUtxo));
    assert_eq!(WalletQuery::from_name("SwapUtxo"), Some(WalletQuery::SwapUtxo));
    assert_eq!(WalletQuery::from_name("ContractUtxo"), Some(WalletQuery::ContractUtxo));
    assert_eq!(WalletQuery::from_name("ContractBalance"), Some(WalletQuery::ContractBalance));
    assert_eq!(WalletQuery::from_name("SwapBalance"), Some(WalletQuery::SwapBalance));
    assert_eq!(WalletQuery::from_name("SeedBalance"), Some(WalletQuery::SeedBalance));
    assert_eq!(WalletQuery::from_name("TotalBalance"), Some(WalletQuery::TotalBalance));
    assert_eq!(WalletQuery::from_name("GetNewAddress"), Some(WalletQuery::GetNewAddress));
    assert_eq!(WalletQuery::from_name("DoCoinswap"), None);
    assert_eq!(WalletQuery::from_name(""), None);
}

#[test]
fn maker_arguments_name_known_networks() {
    let defaults = MakerArgs::defaults();
    assert_eq!(defaults.network, "tor");
    assert_eq!(defaults.rpc, "127.0.0.1:18443");
    assert_eq!(defaults.auth, ("user".to_string(), "password".to_string()));
    assert_eq!(defaults.rpc_network, "regtest");
    assert_eq!(defaults.networks(), Some((ConnectionType::TOR, RpcNetwork::Regtest)));
    let mut other = MakerArgs::defaults();
    other.network = "clearnet".to_string();
    other.rpc_network = "mainnet".to_string();
    assert_eq!(other.networks(), Some((ConnectionType::CLEARNET, RpcNetwork::Mainnet)));
    other.rpc_network = "testnet".to_string();
    assert_eq!(other.networks(), None);
}
