//! Direct (server-less) peer-to-peer transfer: framing, the transfer code, the
//! listener's admission controls, and the state machines of both sides.

use vstd::prelude::*;
use crate::contacts::PublicKey;
use crate::store::VaultMeta;

pub mod code;
pub mod concurrency;
pub mod listener;
pub mod natpmp;
pub mod sender;
pub mod wire;

verus! {

/// How to listen.
pub struct ListenConfig {
    /// The port to bind; 0 lets the system choose.
    pub port: u16,
    /// Whether to ask the router for a port.
    pub internet: bool,
    /// The only sender to let in.
    pub expected_sender_fpr: Option<[u8; 32]>,
}

/// What to send, and to whom.
pub struct SendConfig {
    pub host: String,
    pub port: u16,
    pub recipient: PublicKey,
    pub recipient_fpr: [u8; 32],
    /// The code that the receiver shows.
    pub transfer_code: Option<String>,
    pub vault_id: String,
}

/// Whether the router opened a port.
pub enum NatStatus {
    /// It was not asked to.
    Disabled,
    Mapped,
    Unavailable(String),
}

/// What a transfer worker reports.
pub enum NetEvent {
    Listening {
        lan_addr: String,
        public_addr: Option<String>,
        nat: NatStatus,
        transfer_code: String,
    },
    Connecting,
    Status(String),
    PeerConnected { fpr_hex: String, name: Option<String>, verified: bool },
    Offer { filename: String, size: u64, sender_name: Option<String>, verified: bool },
    Progress { done: u64, total: u64 },
    Received { meta: VaultMeta, file_count: usize, sender_name: Option<String> },
    Sent { vault_name: String },
    Declined,
    Error(String),
    Stopped,
}

/// What a transfer worker is told.
#[derive(Clone, Copy, Debug, PartialEq, Eq, Structural)]
pub enum NetCommand {
    AcceptOffer,
    RejectOffer,
    Cancel,
    Stop,
}

} // verus!
