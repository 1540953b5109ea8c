//! The host's configuration: what is needed to go online, and what the host
//! does with what it was given.
use vstd::prelude::*;

verus! {

/// The Celestia options of the host.
#[derive(Default, Clone, Debug, PartialEq, Eq)]
pub struct CelestiaCfg {
    /// Connection to celestia network
    pub celestia_connection: Option<String>,
    /// Token for the Celestia node connection
    pub auth_token: Option<String>,
    /// Celestia Namespace to fetch data from
    pub namespace: Option<String>,
}

/// The options of the single-chain host that the Celestia host reads.
#[derive(Default, Clone, Debug, PartialEq, Eq)]
pub struct SingleChainHost {
    /// Address of the L1 node
    pub l1_node_address: Option<String>,
    /// Address of the L1 beacon API
    pub l1_beacon_address: Option<String>,
    /// Address of the L2 node
    pub l2_node_address: Option<String>,
    /// The directory of the preimage store on disk
    pub data_dir: Option<String>,
    /// The path of the rollup configuration
    pub rollup_config_path: Option<String>,
    /// Whether to run as the preimage server only
    pub server: bool,
}

/// The host binary CLI application arguments.
#[derive(Default, Clone, Debug, PartialEq, Eq)]
pub struct CelestiaChainHost {
    pub single_host: SingleChainHost,
    pub celestia_args: CelestiaCfg,
}

/// Operation modes for the host binary.
#[derive(Clone, Debug, PartialEq, Eq)]
pub enum HostMode {
    /// Run the host in single-chain mode.
    Celestia(CelestiaChainHost),
}

/// The host binary CLI application arguments.
#[derive(Clone, Debug, PartialEq, Eq)]
pub struct HostCli {
    /// Verbosity level (0-2)
    pub v: u8,
    /// Host mode
    pub mode: HostMode,
}

/// A value that the host needs and was not given, or could not read.
#[derive(Clone, Copy, Debug, PartialEq, Eq, Structural)]
pub enum ConfigError {
    /// No L1 node address.
    L1NodeAddress,
    /// No L1 beacon address.
    L1BeaconAddress,
    /// No L2 node address.
    L2NodeAddress,
    /// No Celestia connection.
    CelestiaConnection,
    /// No Celestia namespace.
    Namespace,
    /// The namespace is not a hex string.
    NamespaceHex,
    /// The namespace's bytes are no version 0 namespace.
    NamespaceV0,
    /// No path to the rollup configuration.
    RollupConfigPath,
}

impl ConfigError {
    /// The words in which the error is reported.
    pub open spec fn text(self) -> Seq<char> {
        match self {
            ConfigError::L1NodeAddress => "Provider must be set"@,
            ConfigError::L1BeaconAddress => "Beacon API URL must be set"@,
            ConfigError::L2NodeAddress => "L2 node address must be set"@,
            ConfigError::CelestiaConnection => "Celestia connection must be set"@,
            ConfigError::Namespace => "Celestia Namespace must be set"@,
            ConfigError::NamespaceHex => "Invalid hex"@,
            ConfigError::NamespaceV0 => "Invalid namespace"@,
            ConfigError::RollupConfigPath => {
                "No rollup config path provided. Please provide a path to the rollup config."@
            },
        }
    }

    /// The words in which the error is reported.
    pub fn message(&self) -> (r: &'static str)
        ensures
            r@ == self.text(),
    {
        match self {
            ConfigError::L1NodeAddress => "Provider must be set",
            ConfigError::L1BeaconAddress => "Beacon API URL must be set",
            ConfigError::L2NodeAddress => "L2 node address must be set",
            ConfigError::CelestiaConnection => "Celestia connection must be set",
            ConfigError::Namespace => "Celestia Namespace must be set",
            ConfigError::NamespaceHex => "Invalid hex",
            ConfigError::NamespaceV0 => "Invalid namespace",
            ConfigError::RollupConfigPath => {
                "No rollup config path provided. Please provide a path to the rollup config."
            },
        }
    }
}

/// How the host runs.
#[derive(Clone, Copy, Debug, PartialEq, Eq, Structural)]
pub enum StartMode {
    /// As the preimage server, for a client in the parent process.
    Server,
    /// With the client in the same process.
    Native,
}

/// Where the preimage server takes its answers from.
#[derive(Clone, Copy, Debug, PartialEq, Eq, Structural)]
pub enum Backend {
    /// From the key-value store alone.
    Offline,
    /// From the nodes, through the key-value store.
    Online,
}

/// A Celestia namespace: the version byte and the 28 bytes of the id.
#[derive(Clone, Copy, Debug, PartialEq, Eq)]
pub struct Namespace {
    pub bytes: [u8; 29],
}

/// The bytes that a hex string stands for, with or without a `0x` before
/// them; `None` for what is no hex string.
pub uninterp spec fn hex_decoded(input: Seq<char>) -> Option<Seq<u8>>;

/// The version 0 namespace with the given id: an id of up to ten bytes is
/// padded with zero bytes on the left, and one of 28 bytes must start with 18
/// zero bytes.
pub open spec fn namespace_v0(id: Seq<u8>) -> Option<Seq<u8>> {
    if id.len() <= 10 {
        Some(crate::bytes::zeros((29 - id.len()) as nat) + id)
    } else if id.len() == 28 && id.subrange(0, 18) == crate::bytes::zeros(18) {
        Some(crate::bytes::zeros(1) + id)
    } else {
        None
    }
}

/// Calls `alloy_primitives::hex::decode`.
///
/// Not proved: that the bytes returned are those that [`hex_decoded`] names,
/// and that nothing is returned exactly where the outside function fails.
#[verifier::external_body]
pub(crate) fn decode_hex(input: &str) -> (r: Option<Vec<u8>>)
    ensures
        match r {
            Some(bytes) => hex_decoded(input@) == Some(bytes@),
            None => hex_decoded(input@) is None,
        },
{
    alloy_primitives::hex::decode(input).ok()
}

/// Calls `celestia_types::nmt::Namespace::new_v0` and copies the
/// namespace's 29 bytes.
///
/// Not proved: that the outside function accepts ids of up to ten bytes and
/// ids of 28 bytes that start with 18 zero bytes, and no others, and that the
/// namespace is the version byte 0 and the id padded to 28 bytes on the left.
#[verifier::external_body]
pub(crate) fn new_namespace_v0(id: &[u8]) -> (r: Option<Namespace>)
    ensures
        match r {
            Some(namespace) => namespace_v0(id@) == Some(namespace.bytes@),
            None => namespace_v0(id@) is None,
        },
{
    match celestia_types::nmt::Namespace::new_v0(id) {
        Ok(namespace) => {
            let mut bytes = [0u8; 29];
            bytes.copy_from_slice(namespace.as_bytes());
            Some(Namespace { bytes })
        },
        Err(_) => None,
    }
}

/// The namespace that a hex string names.
pub open spec fn parsed_namespace(text: Seq<char>) -> Result<Seq<u8>, ConfigError> {
    match hex_decoded(text) {
        None => Err(ConfigError::NamespaceHex),
        Some(id) => match namespace_v0(id) {
            None => Err(ConfigError::NamespaceV0),
            Some(bytes) => Ok(bytes),
        },
    }
}

/// Makes a version 0 namespace of decoded bytes, or says that they are none.
pub fn namespace_of_id(id: Option<Vec<u8>>) -> (r: Result<Namespace, ConfigError>)
    ensures
        match id {
            None => r == Err::<Namespace, ConfigError>(ConfigError::NamespaceHex),
            Some(bytes) => match r {
                Ok(namespace) => namespace_v0(bytes@) == Some(namespace.bytes@),
                Err(e) => e == ConfigError::NamespaceV0 && namespace_v0(bytes@) is None,
            },
        },
{
    match id {
        None => Err(ConfigError::NamespaceHex),
        Some(bytes) => match new_namespace_v0(bytes.as_slice()) {
            Some(namespace) => Ok(namespace),
            None => Err(ConfigError::NamespaceV0),
        },
    }
}

/// Reads a namespace from its hex string.
pub fn parse_namespace(text: &str) -> (r: Result<Namespace, ConfigError>)
    ensures
        match r {
            Ok(namespace) => parsed_namespace(text@) == Ok::<Seq<u8>, ConfigError>(
                namespace.bytes@,
            ),
            Err(e) => parsed_namespace(text@) == Err::<Seq<u8>, ConfigError>(e),
        },
{
    namespace_of_id(decode_hex(text))
}

impl CelestiaChainHost {
    /// Whether the host is to run without any node: no node address was
    /// given, and a data directory was.
    pub open spec fn offline(&self) -> bool {
        &&& self.single_host.l1_node_address is None
        &&& self.single_host.l2_node_address is None
        &&& self.single_host.l1_beacon_address is None
        &&& self.single_host.data_dir is Some
    }

    /// The first of the values needed to go online that is missing, in the
    /// order in which the providers are made.
    pub open spec fn first_missing(&self) -> Option<ConfigError> {
        if self.single_host.l1_node_address is None {
            Some(ConfigError::L1NodeAddress)
        } else if self.single_host.l1_beacon_address is None {
            Some(ConfigError::L1BeaconAddress)
        } else if self.single_host.l2_node_address is None {
            Some(ConfigError::L2NodeAddress)
        } else if self.celestia_args.celestia_connection is None {
            Some(ConfigError::CelestiaConnection)
        } else if self.celestia_args.namespace is None {
            Some(ConfigError::Namespace)
        } else {
            None
        }
    }

    /// Returns `true` if the host is running in offline mode.
    pub fn is_offline(&self) -> (r: bool)
        ensures
            r == self.offline(),
    {
        self.single_host.l1_node_address.is_none() && self.single_host.l2_node_address.is_none()
            && self.single_host.l1_beacon_address.is_none() && self.single_host.data_dir.is_some()
    }

    /// How the host starts: as a server where that was asked for, and else
    /// with the client in the same process.
    pub fn start_mode(&self) -> (r: StartMode)
        ensures
            r == if self.single_host.server {
                StartMode::Server
            } else {
                StartMode::Native
            },
    {
        if self.single_host.server {
            StartMode::Server
        } else {
            StartMode::Native
        }
    }

    /// The backend of the preimage server: the offline one exactly when the
    /// host is offline.
    pub fn backend(&self) -> (r: Backend)
        ensures
            r == if self.offline() {
                Backend::Offline
            } else {
                Backend::Online
            },
    {
        if self.is_offline() {
            Backend::Offline
        } else {
            Backend::Online
        }
    }

    /// Whether the preimages are kept on disk: whether a data directory was given.
    pub fn stores_on_disk(&self) -> (r: bool)
        ensures
            r == (self.single_host.data_dir is Some),
    {
        self.single_host.data_dir.is_some()
    }

    /// Checks that everything needed to go online was given, in the order in
    /// which the providers are made: the L1 node, the beacon API, the L2
    /// node, the Celestia connection, the namespace.
    pub fn check_online(&self) -> (r: Result<(), ConfigError>)
        ensures
            match self.first_missing() {
                Some(e) => r == Err::<(), ConfigError>(e),
                None => r is Ok,
            },
    {
        if self.single_host.l1_node_address.is_none() {
            return Err(ConfigError::L1NodeAddress);
        }
        if self.single_host.l1_beacon_address.is_none() {
            return Err(ConfigError::L1BeaconAddress);
        }
        if self.single_host.l2_node_address.is_none() {
            return Err(ConfigError::L2NodeAddress);
        }
        if self.celestia_args.celestia_connection.is_none() {
            return Err(ConfigError::CelestiaConnection);
        }
        if self.celestia_args.namespace.is_none() {
            return Err(ConfigError::Namespace);
        }
        Ok(())
    }

    /// The address of the L1 node, which has to be given to go online.
    pub fn l1_node_address(&self) -> (r: Result<&String, ConfigError>)
        ensures
            match self.single_host.l1_node_address {
                Some(address) => r == Ok::<&String, ConfigError>(&address),
                None => r == Err::<&String, ConfigError>(ConfigError::L1NodeAddress),
            },
    {
        match &self.single_host.l1_node_address {
            Some(address) => Ok(address),
            None => Err(ConfigError::L1NodeAddress),
        }
    }

    /// The address of the L1 beacon API, which has to be given to go online.
    pub fn l1_beacon_address(&self) -> (r: Result<&String, ConfigError>)
        ensures
            match self.single_host.l1_beacon_address {
                Some(address) => r == Ok::<&String, ConfigError>(&address),
                None => r == Err::<&String, ConfigError>(ConfigError::L1BeaconAddress),
            },
    {
        match &self.single_host.l1_beacon_address {
            Some(address) => Ok(address),
            None => Err(ConfigError::L1BeaconAddress),
        }
    }

    /// The address of the L2 node, which has to be given to go online.
    pub fn l2_node_address(&self) -> (r: Result<&String, ConfigError>)
        ensures
            match self.single_host.l2_node_address {
                Some(address) => r == Ok::<&String, ConfigError>(&address),
                None => r == Err::<&String, ConfigError>(ConfigError::L2NodeAddress),
            },
    {
        match &self.single_host.l2_node_address {
            Some(address) => Ok(address),
            None => Err(ConfigError::L2NodeAddress),
        }
    }

    /// The address of the Celestia node, which has to be given to go online.
    pub fn celestia_connection(&self) -> (r: Result<&String, ConfigError>)
        ensures
            match self.celestia_args.celestia_connection {
                Some(address) => r == Ok::<&String, ConfigError>(&address),
                None => r == Err::<&String, ConfigError>(ConfigError::CelestiaConnection),
            },
    {
        match &self.celestia_args.celestia_connection {
            Some(address) => Ok(address),
            None => Err(ConfigError::CelestiaConnection),
        }
    }

    /// The path of the rollup configuration, which has to be given.
    pub fn rollup_config_path(&self) -> (r: Result<&String, ConfigError>)
        ensures
            match self.single_host.rollup_config_path {
                Some(path) => r == Ok::<&String, ConfigError>(&path),
                None => r == Err::<&String, ConfigError>(ConfigError::RollupConfigPath),
            },
    {
        match &self.single_host.rollup_config_path {
            Some(path) => Ok(path),
            None => Err(ConfigError::RollupConfigPath),
        }
    }

    /// The namespace that the host fetches from: the one that the namespace
    /// option names, where it is given and names one.
    pub fn namespace(&self) -> (r: Result<Namespace, ConfigError>)
        ensures
            match self.celestia_args.namespace {
                None => r == Err::<Namespace, ConfigError>(ConfigError::Namespace),
                Some(text) => match r {
                    Ok(namespace) => parsed_namespace(text@) == Ok::<Seq<u8>, ConfigError>(
                        namespace.bytes@,
                    ),
                    Err(e) => parsed_namespace(text@) == Err::<Seq<u8>, ConfigError>(e),
                },
            },
    {
        match &self.celestia_args.namespace {
            None => Err(ConfigError::Namespace),
            Some(text) => parse_namespace(text.as_str()),
        }
    }
}

} // verus!
