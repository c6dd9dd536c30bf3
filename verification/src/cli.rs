//! The command line of the client and the configuration file it keeps.

use crate::tinydancer::Cluster;
use vstd::prelude::*;

verus! {

/// What the user asks the client to do.
#[derive(Clone, Debug)]
pub enum Commands {
    /// Start the local light client
    Start { enable_ui_service: bool, slot: u64 },
    /// Verify the samples for a single slot
    Verify { slot: u64 },
    /// Stream the client logs to your terminal
    Logs { log_path: String },
    /// Edit your client config
    Config(ConfigSubcommands),
    /// Get the latest slot
    Slot,
}

/// Reading or changing the configuration file.
#[derive(Clone, Debug)]
pub enum ConfigSubcommands {
    Update { log_path: Option<String>, cluster: Option<String>, validator_set_path: Option<String> },
    Get,
}

/// The contents of the configuration file.
#[derive(Clone, Debug)]
pub struct ConfigSchema {
    pub log_path: String,
    pub cluster: String,
    pub validator_set_path: String,
}

/// A value given on the command line replaces the one in the file; a value
/// not given keeps it.
pub open spec fn spec_override(given: Option<String>, current: String) -> String {
    match given {
        Some(v) => v,
        None => current,
    }
}

impl ConfigSchema {
    /// The configuration after `config set`: each setting given replaces the
    /// stored one, the others stay.
    pub fn apply_overrides(
        self,
        log_path: Option<String>,
        cluster: Option<String>,
        validator_set_path: Option<String>,
    ) -> (c: ConfigSchema)
        ensures
            c.log_path == spec_override(log_path, self.log_path),
            c.cluster == spec_override(cluster, self.cluster),
            c.validator_set_path == spec_override(validator_set_path, self.validator_set_path),
    {
        let ConfigSchema { log_path: cur_log, cluster: cur_cluster, validator_set_path: cur_vs } =
            self;
        ConfigSchema {
            cluster: match cluster {
                Some(v) => v,
                None => cur_cluster,
            },
            log_path: match log_path {
                Some(v) => v,
                None => cur_log,
            },
            validator_set_path: match validator_set_path {
                Some(v) => v,
                None => cur_vs,
            },
        }
    }
}

/// The validators and their stakes, per cluster.
#[derive(Clone, Debug, Default)]
pub struct ValidatorSet {
    pub mainnet_beta: Vec<(String, u64)>,
    pub testnet: Vec<(String, u64)>,
    pub devnet: Vec<(String, u64)>,
    pub custom: Vec<(String, u64)>,
}

/// The answer to a `getSlot` request.
#[derive(Clone, Debug, Default)]
pub struct GetSlotResponse {
    pub jsonrpc: String,
    pub result: i64,
    pub id: i64,
}

/// The cluster a configured name stands for: the names `Mainnet`, `Devnet`
/// and `Localnet`, or else the name taken as a custom address.
pub open spec fn spec_cluster_named(name: String) -> Cluster {
    if name@ == "Mainnet"@ {
        Cluster::Mainnet
    } else if name@ == "Devnet"@ {
        Cluster::Devnet
    } else if name@ == "Localnet"@ {
        Cluster::Localnet
    } else {
        Cluster::Custom(name)
    }
}

/// The cluster a configured name stands for (see `spec_cluster_named`).
pub fn get_cluster(cluster: String) -> (c: Cluster)
    ensures
        c == spec_cluster_named(cluster),
{
    proof {
        reveal_strlit("Mainnet");
        reveal_strlit("Devnet");
        reveal_strlit("Localnet");
    }
    if cluster == "Mainnet".to_owned() {
        Cluster::Mainnet
    } else if cluster == "Devnet".to_owned() {
        Cluster::Devnet
    } else if cluster == "Localnet".to_owned() {
        Cluster::Localnet
    } else {
        Cluster::Custom(cluster)
    }
}

/// The RPC address for a configured cluster name: the public endpoints of
/// mainnet and devnet, the local validator's default address, or the name
/// itself.
pub open spec fn spec_endpoint_named(name: Seq<char>) -> Seq<char> {
    if name == "Mainnet"@ {
        "https://api.mainnet-beta.solana.com"@
    } else if name == "Devnet"@ {
        "https://api.devnet.solana.com"@
    } else if name == "Localnet"@ {
        "http://0.0.0.0:8899"@
    } else {
        name
    }
}

/// The RPC address for a configured cluster name (see
/// `spec_endpoint_named`).
pub fn get_endpoint(cluster: String) -> (url: String)
    ensures
        url@ == spec_endpoint_named(cluster@),
{
    if cluster == "Mainnet".to_owned() {
        "https://api.mainnet-beta.solana.com".to_owned()
    } else if cluster == "Devnet".to_owned() {
        "https://api.devnet.solana.com".to_owned()
    } else if cluster == "Localnet".to_owned() {
        "http://0.0.0.0:8899".to_owned()
    } else {
        cluster
    }
}

/// Law: the address for a configured cluster name is the address of the
/// cluster the name stands for.
pub proof fn lemma_endpoint_of_named_cluster(name: String)
    ensures
        crate::tinydancer::spec_endpoint(spec_cluster_named(name)) == spec_endpoint_named(name@),
{
}

} // verus!
