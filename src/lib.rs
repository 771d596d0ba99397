//! Coordination and ceremony logic for a distributed-validator setup.
//!
//! The library holds the decisions; the caller performs the I/O. A leader and
//! its followers exchange [`message::Msg`] values through the state machines of
//! [`protocol`], and each node then walks the artifact-gated phases of
//! [`ceremony`], which describe the isolated process runs in [`container`].
//! [`scan`] extracts a generated identity from a run's output.
//! [`readiness`] holds a node back until enough peers are connected.

pub mod ceremony;
pub mod container;
pub mod message;
pub mod protocol;
pub mod readiness;
pub mod scan;

use vstd::prelude::*;

pub use ceremony::{
    create_enr, Artifact, Operator, OperatorView, Phase, PhaseRunner, Report, Stage, Task,
};
pub use container::{wait_step, Container, WaitStep};
pub use message::{decode, encode, Msg, MsgView};
pub use protocol::{Follower, FollowerStage, Leader, LeaderStage, Outbound, OutboundView};
pub use readiness::{PeerEvent, PeerQuorum, PeerQuorumView};
pub use scan::{find_line, IdentityScanner};

verus! {

/// The ways a node's run can fail.
#[derive(Debug, Clone, Copy, PartialEq, Eq, Structural)]
pub enum CeremonyError {
    /// The quorum of peers was not reached.
    PeerDiscoveryFailed,
    /// The message stream ended before the exchange completed.
    IncompleteExchange,
    /// The identity run printed no identity line.
    IdentityGenerationFailed,
    /// The authoring run failed or left no configuration behind.
    ConfigAuthoringFailed,
    /// The ceremony run failed or left no lock behind.
    CeremonyFailed,
    /// The transport reported an error.
    TransportIOFailed,
    /// The process runtime or the artifact store reported an error.
    ProcessIOFailed,
}

/// The shared ceremony configuration that the leader authors.
#[derive(Debug, PartialEq, Eq)]
pub struct DkgConfig {
    pub name: String,
    pub validator_count: u32,
    pub enrs: Vec<String>,
    pub fee_recipient_address: String,
    pub withdrawal_address: String,
}

impl DkgConfig {
    /// A configuration with these parameters.
    pub fn new(
        name: String,
        validator_count: u32,
        enrs: Vec<String>,
        fee_recipient_address: String,
        withdrawal_address: String,
    ) -> (r: DkgConfig)
        ensures
            r.name@ == name@,
            r.validator_count == validator_count,
            r.enrs@ == enrs@,
            r.fee_recipient_address@ == fee_recipient_address@,
            r.withdrawal_address@ == withdrawal_address@,
    {
        DkgConfig { name, validator_count, enrs, fee_recipient_address, withdrawal_address }
    }

    /// The configuration that a leader authors when no parameters are given:
    /// one validator named `Example`, with the zero address as fee recipient
    /// and a fixed withdrawal address.
    pub fn for_identities(enrs: Vec<String>) -> (r: DkgConfig)
        ensures
            r.name@ == "Example"@,
            r.validator_count == 1,
            r.enrs@ == enrs@,
            r.fee_recipient_address@ == "0x0000000000000000000000000000000000000000"@,
            r.withdrawal_address@ == "0xfB6916095ca1df60bB79Ce92cE3Ea74c37c5d359"@,
    {
        DkgConfig::new(
            String::from_str("Example"),
            1,
            enrs,
            String::from_str("0x0000000000000000000000000000000000000000"),
            String::from_str("0xfB6916095ca1df60bB79Ce92cE3Ea74c37c5d359"),
        )
    }
}

/// The data directory used when none is configured: `<manifest_dir>/data`.
pub fn default_data_dir(manifest_dir: &str) -> (r: String)
    ensures
        r@ == manifest_dir@ + "/data"@,
{
    let mut r = String::from_str(manifest_dir);
    r.append("/data");
    r
}

} // verus!
