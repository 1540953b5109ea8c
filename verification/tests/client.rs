//! The client's decisions and the host's configuration.
use hana::client::{epilogue, prologue, safe_head_hash, FaultProofProgramError, Prologue};
use hana::host::{
    parse_namespace, Backend, CelestiaCfg, CelestiaChainHost, ConfigError, HostCli, HostMode,
    SingleChainHost, StartMode,
};
use hana::provider::BootInfo;

fn boot(agreed: u8, claimed: u8, claimed_block: u64) -> BootInfo {
    BootInfo {
        l1_head: [0xaa; 32],
        agreed_l2_output_root: [agreed; 32],
        claimed_l2_output_root: [claimed; 32],
        claimed_l2_block_number: claimed_block,
        l1_chain_id: 1,
    }
}

#[test]
fn trace_extension_short_circuit() {
    assert_eq!(prologue(&boot(7, 7, 100), 90), Ok(Prologue::TraceExtension));
    assert_eq!(prologue(&boot(7, 7, 100), 100), Ok(Prologue::TraceExtension));
}

#[test]
fn invalid_claim_by_block_number() {
    assert_eq!(
        prologue(&boot(1, 2, 99), 100),
        Err(FaultProofProgramError::InvalidClaim([1; 32], [2; 32]))
    );
    // The block number is looked at first: equal roots do not save the claim.
    assert_eq!(
        prologue(&boot(7, 7, 99), 100),
        Err(FaultProofProgramError::InvalidClaim([7; 32], [7; 32]))
    );
    assert_eq!(
        prologue(&boot(1, 2, 0), u64::MAX),
        Err(FaultProofProgramError::InvalidClaim([1; 32], [2; 32]))
    );
}

#[test]
fn other_claims_are_derived() {
    assert_eq!(prologue(&boot(1, 2, 100), 100), Ok(Prologue::Derive));
    assert_eq!(prologue(&boot(1, 2, 101), 100), Ok(Prologue::Derive));
    let mut almost = boot(1, 1, 101);
    almost.claimed_l2_output_root[31] = 2;
    assert_eq!(prologue(&almost, 100), Ok(Prologue::Derive));
}

#[test]
fn derived_root_is_held_against_the_claim() {
    assert_eq!(epilogue(&boot(1, 2, 100), [2; 32]), Ok(()));
    assert_eq!(
        epilogue(&boot(1, 2, 100), [3; 32]),
        Err(FaultProofProgramError::InvalidClaim([3; 32], [2; 32]))
    );
    assert_eq!(
        epilogue(&boot(1, 2, 100), [1; 32]),
        Err(FaultProofProgramError::InvalidClaim([1; 32], [2; 32]))
    );
}

#[test]
fn safe_head_hash_is_the_last_word_of_the_preimage() {
    let preimage: [u8; 128] = core::array::from_fn(|i| i as u8);
    let expected: [u8; 32] = core::array::from_fn(|i| (96 + i) as u8);
    assert_eq!(safe_head_hash(&preimage), expected);
}

fn online() -> CelestiaChainHost {
    CelestiaChainHost {
        single_host: SingleChainHost {
            l1_node_address: Some("http://l1".to_string()),
            l1_beacon_address: Some("http://beacon".to_string()),
            l2_node_address: Some("http://l2".to_string()),
            data_dir: None,
            rollup_config_path: Some("rollup.json".to_string()),
            server: false,
        },
        celestia_args: CelestiaCfg {
            celestia_connection: Some("http://celestia".to_string()),
            auth_token: None,
            namespace: Some("0x0102".to_string()),
        },
    }
}

#[test]
fn default_configuration_is_empty() {
    let cfg = CelestiaCfg::default();
    assert_eq!(cfg.celestia_connection, None);
    assert_eq!(cfg.auth_token, None);
    assert_eq!(cfg.namespace, None);
    let host = CelestiaChainHost::default();
    assert!(!host.is_offline());
    assert_eq!(host.start_mode(), StartMode::Native);
}

#[test]
fn offline_means_no_node_and_a_data_directory() {
    let mut host = CelestiaChainHost::default();
    host.single_host.data_dir = Some("/data".to_string());
    assert!(host.is_offline());
    assert_eq!(host.backend(), Backend::Offline);
    assert!(host.stores_on_disk());
    for field in 0..3 {
        let mut host = host.clone();
        match field {
            0 => host.single_host.l1_node_address = Some("x".to_string()),
            1 => host.single_host.l2_node_address = Some("x".to_string()),
            _ => host.single_host.l1_beacon_address = Some("x".to_string()),
        }
        assert!(!host.is_offline());
        assert_eq!(host.backend(), Backend::Online);
    }
    assert!(!online().is_offline());
    assert!(!online().stores_on_disk());
    // The Celestia options do not count.
    host.celestia_args = online().celestia_args;
    assert!(host.is_offline());
}

#[test]
fn start_mode_follows_the_server_switch() {
    let mut host = online();
    assert_eq!(host.start_mode(), StartMode::Native);
    host.single_host.server = true;
    assert_eq!(host.start_mode(), StartMode::Server);
}

#[test]
fn first_missing_value_is_named() {
    assert_eq!(online().check_online(), Ok(()));
    assert_eq!(CelestiaChainHost::default().check_online(), Err(ConfigError::L1NodeAddress));
    let mut host = online();
    host.celestia_args.namespace = None;
    assert_eq!(host.check_online(), Err(ConfigError::Namespace));
    host.celestia_args.celestia_connection = None;
    assert_eq!(host.check_online(), Err(ConfigError::CelestiaConnection));
    host.single_host.l2_node_address = None;
    assert_eq!(host.check_online(), Err(ConfigError::L2NodeAddress));
    host.single_host.l1_beacon_address = None;
    assert_eq!(host.check_online(), Err(ConfigError::L1BeaconAddress));
    host.single_host.l1_node_address = None;
    assert_eq!(host.check_online(), Err(ConfigError::L1NodeAddress));
}

#[test]
fn each_address_has_to_be_given() {
    let host = online();
    assert_eq!(host.l1_node_address(), Ok(&"http://l1".to_string()));
    assert_eq!(host.l1_beacon_address(), Ok(&"http://beacon".to_string()));
    assert_eq!(host.l2_node_address(), Ok(&"http://l2".to_string()));
    assert_eq!(host.celestia_connection(), Ok(&"http://celestia".to_string()));
    let host = CelestiaChainHost::default();
    assert_eq!(host.l1_node_address(), Err(ConfigError::L1NodeAddress));
    assert_eq!(host.l1_beacon_address(), Err(ConfigError::L1BeaconAddress));
    assert_eq!(host.l2_node_address(), Err(ConfigError::L2NodeAddress));
    assert_eq!(host.celestia_connection(), Err(ConfigError::CelestiaConnection));
}

#[test]
fn rollup_config_path_has_to_be_given() {
    assert_eq!(online().rollup_config_path(), Ok(&"rollup.json".to_string()));
    assert_eq!(
        CelestiaChainHost::default().rollup_config_path(),
        Err(ConfigError::RollupConfigPath)
    );
}

#[test]
fn namespace_is_read_from_hex() {
    let namespace = parse_namespace("0102").unwrap();
    let mut expected = [0u8; 29];
    expected[27] = 1;
    expected[28] = 2;
    assert_eq!(namespace.bytes, expected);
    assert_eq!(parse_namespace("0x0102").unwrap().bytes, expected);
    assert_eq!(online().namespace().unwrap().bytes, expected);

    let ten = parse_namespace("00112233445566778899").unwrap();
    assert_eq!(&ten.bytes[..19], &[0u8; 19]);
    assert_eq!(&ten.bytes[19..], &[0, 0x11, 0x22, 0x33, 0x44, 0x55, 0x66, 0x77, 0x88, 0x99]);

    let full = format!("{}{}", "00".repeat(18), "aa".repeat(10));
    let namespace = parse_namespace(&full).unwrap();
    assert_eq!(namespace.bytes[0], 0);
    assert_eq!(&namespace.bytes[1..19], &[0u8; 18]);
    assert_eq!(&namespace.bytes[19..], &[0xaa; 10]);

    assert_eq!(parse_namespace("").unwrap().bytes, [0u8; 29]);
}

#[test]
fn namespace_errors() {
    assert_eq!(parse_namespace("xyz1"), Err(ConfigError::NamespaceHex));
    assert_eq!(parse_namespace("012"), Err(ConfigError::NamespaceHex));
    assert_eq!(parse_namespace(&"11".repeat(11)), Err(ConfigError::NamespaceV0));
    assert_eq!(parse_namespace(&"11".repeat(28)), Err(ConfigError::NamespaceV0));
    assert_eq!(parse_namespace(&"00".repeat(29)), Err(ConfigError::NamespaceV0));
    let mut host = online();
    host.celestia_args.namespace = None;
    assert_eq!(host.namespace(), Err(ConfigError::Namespace));
    host.celestia_args.namespace = Some("zz".to_string());
    assert_eq!(host.namespace(), Err(ConfigError::NamespaceHex));
}

#[test]
fn cli_holds_the_verbosity_and_the_mode() {
    let cli = HostCli { v: 2, mode: HostMode::Celestia(online()) };
    assert_eq!(cli.v, 2);
    assert_eq!(cli.mode, HostMode::Celestia(online()));
}
