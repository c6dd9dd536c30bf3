//! The client's configuration, the clusters it can talk to and the status it
//! reports while it runs.

use crate::sampler::ArchiveConfig;
use vstd::prelude::*;

verus! {

/// A long-running part of the client, built from its configuration. (Waiting
/// for a service to finish is asynchronous and belongs to the program that
/// runs it.)
pub trait ClientService<T>: Sized {
    /// What waiting for the service can fail with.
    type ServiceError;

    fn new(config: T) -> Self;
}

/// The cluster whose RPC service the client uses.
#[derive(Clone, Debug)]
pub enum Cluster {
    Mainnet,
    Devnet,
    Localnet,
    Custom(String),
}

/// The RPC address of a cluster.
pub open spec fn spec_endpoint(cluster: Cluster) -> Seq<char> {
    match cluster {
        Cluster::Mainnet => "https://api.mainnet-beta.solana.com"@,
        Cluster::Devnet => "https://api.devnet.solana.com"@,
        Cluster::Localnet => "http://0.0.0.0:8899"@,
        Cluster::Custom(url) => url@,
    }
}

/// The RPC address of a cluster: the public endpoints of mainnet and devnet,
/// the local validator's default address, or the custom address itself.
pub fn endpoint(cluster: Cluster) -> (url: String)
    ensures
        url@ == spec_endpoint(cluster),
{
    match cluster {
        Cluster::Mainnet => "https://api.mainnet-beta.solana.com".to_owned(),
        Cluster::Devnet => "https://api.devnet.solana.com".to_owned(),
        Cluster::Localnet => "http://0.0.0.0:8899".to_owned(),
        Cluster::Custom(cluster) => cluster,
    }
}

/// What the client is doing, with a message for the user.
#[derive(Clone, Debug)]
pub enum ClientStatus {
    Initializing(String),
    SearchingForRPCService(String),
    Active(String),
    Crashed(String),
    ShuttingDown(String),
}

/// The status the consensus monitor reports while it checks slot votes.
pub open spec fn spec_verifying_consensus_message() -> Seq<char> {
    "Monitoring Tinydancer: Verifying consensus"@
}

/// The status the sampler reports while it samples shreds.
pub open spec fn spec_sampling_message() -> Seq<char> {
    "Monitoring Tinydancer: Actively Sampling Shreds"@
}

/// The status after the slot subscription could not be opened.
pub open spec fn spec_socket_unreachable_message() -> Seq<char> {
    "Client can't connect to socket"@
}

impl ClientStatus {
    /// One round of the consensus monitor: a crashed client stays crashed and
    /// the monitor stops (`false`); otherwise the status becomes "verifying
    /// consensus" and the monitor goes on (`true`).
    pub fn enter_consensus_round(&mut self) -> (go_on: bool)
        ensures
            go_on == !(*old(self) is Crashed),
            go_on ==> (*final(self) matches ClientStatus::Active(m) && m@
                == spec_verifying_consensus_message()),
            !go_on ==> *final(self) == *old(self),
    {
        if let ClientStatus::Crashed(_) = self {
            false
        } else {
            *self = ClientStatus::Active("Monitoring Tinydancer: Verifying consensus".to_owned());
            true
        }
    }

    /// One round of the sampler: a crashed client stays crashed; otherwise the
    /// status becomes "actively sampling".
    pub fn enter_sampling_round(&mut self)
        ensures
            *old(self) is Crashed ==> *final(self) == *old(self),
            !(*old(self) is Crashed) ==> (*final(self) matches ClientStatus::Active(m) && m@
                == spec_sampling_message()),
    {
        if let ClientStatus::Crashed(_) = self {
        } else {
            *self = ClientStatus::Active(
                "Monitoring Tinydancer: Actively Sampling Shreds".to_owned(),
            );
        }
    }

    /// The slot subscription could not be opened: the client has crashed.
    pub fn socket_unreachable(&mut self)
        ensures
            *final(self) matches ClientStatus::Crashed(m) && m@ == spec_socket_unreachable_message(),
    {
        *self = ClientStatus::Crashed("Client can't connect to socket".to_owned());
    }
}

/// How the client is to run.
#[derive(Clone, Debug)]
pub struct TinyDancerConfig {
    pub rpc_endpoint: Cluster,
    pub sample_qty: usize,
    pub enable_ui_service: bool,
    pub archive_config: ArchiveConfig,
    pub tui_monitor: bool,
    pub consensus_mode: bool,
    pub log_path: String,
}

impl TinyDancerConfig {
    /// The user interface runs when either the status monitor or the
    /// detailed monitor is asked for.
    pub fn wants_ui_service(&self) -> (r: bool)
        ensures
            r == (self.enable_ui_service || self.tui_monitor),
    {
        self.enable_ui_service || self.tui_monitor
    }
}

/// Which service watches the cluster: the consensus monitor checks the
/// votes on each slot, the sampler checks shreds of each slot.
#[derive(Clone, Copy, Debug, PartialEq, Eq, Structural)]
pub enum MonitorService {
    Consensus,
    Sampler,
}

/// What the client starts with: its first status, the service that watches
/// the cluster, and whether the user interface runs.
#[derive(Clone, Debug)]
pub struct StartupPlan {
    pub status: ClientStatus,
    pub monitor: MonitorService,
    pub run_ui: bool,
}

/// The status the client starts in.
pub open spec fn spec_starting_up_message() -> Seq<char> {
    "Starting Up Tinydancer"@
}

impl TinyDancerConfig {
    /// How the client starts: initializing, with the consensus monitor in
    /// consensus mode and the sampler otherwise, and with the user interface
    /// when either monitor view is asked for.
    pub fn startup_plan(&self) -> (plan: StartupPlan)
        ensures
            plan.status matches ClientStatus::Initializing(m) && m@ == spec_starting_up_message(),
            plan.monitor == (if self.consensus_mode {
                MonitorService::Consensus
            } else {
                MonitorService::Sampler
            }),
            plan.run_ui == (self.enable_ui_service || self.tui_monitor),
    {
        let monitor = if self.consensus_mode {
            MonitorService::Consensus
        } else {
            MonitorService::Sampler
        };
        StartupPlan {
            status: ClientStatus::Initializing("Starting Up Tinydancer".to_owned()),
            monitor,
            run_ui: self.wants_ui_service(),
        }
    }
}

} // verus!
