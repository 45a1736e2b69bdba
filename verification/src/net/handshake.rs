//! Handshake / packet state machine: interprets one decoded inbound packet
//! and decides the outbound reaction.
//!
//! On an `Init{version, should_crash}` from a peer, two independent checks
//! run in order. First the policy check: if neither side is willing to crash
//! on an error, no peer would treat a forthcoming error as terminal, so an
//! `Error(ShouldCrashBothTrue)` is queued for the peer and the connection is
//! killed. Then the version check: a differing version queues an
//! `Error(VersionMismatch(version, local_version))` — the version from the
//! packet first, the local one second — without killing by itself.
//!
//! On an `Error` packet: under a local crash policy it is fatal to the whole
//! process, surfacing the carried error. The protocol prescribes no recovery
//! for an `Error` received under a no-crash policy; the choice made here is
//! to disconnect: the connection is killed and the process lives.

use vstd::prelude::*;

use super::{NetworkError, NetworkErrorView, NetworkPacket, NetworkPacketView};

verus! {

/// The values of a queue of packets.
pub open spec fn packet_views(ps: Seq<NetworkPacket>) -> Seq<NetworkPacketView> {
    ps.map_values(|q: NetworkPacket| q@)
}

/// The value of an optional error.
pub open spec fn error_option_view(o: Option<NetworkError>) -> Option<NetworkErrorView> {
    match o {
        Some(e) => Some(e@),
        None => None,
    }
}

/// What the state machine decides about one decoded inbound packet.
#[derive(Debug)]
pub struct Reaction {
    /// Packets to queue on the connection's outbound queue, in this order.
    pub replies: Vec<NetworkPacket>,
    /// Whether the connection must be killed, once the replies are flushed.
    pub kill: bool,
    /// When set, the whole process must abort, surfacing this error.
    pub fatal: Option<NetworkError>,
}

/// The packets [`handle_packet`] queues for the peer: the policy error
/// first when neither side would crash, then the mismatch error when the
/// versions differ; nothing for an inbound `Error`.
pub open spec fn spec_reaction_replies(
    local_version: Seq<char>,
    local_should_crash: bool,
    p: NetworkPacketView,
) -> Seq<NetworkPacketView> {
    match p {
        NetworkPacketView::Init { version, should_crash } => {
            let policy: Seq<NetworkPacketView> = if !should_crash && !local_should_crash {
                seq![NetworkPacketView::Error(NetworkErrorView::ShouldCrashBothTrue)]
            } else {
                seq![]
            };
            let mismatch: Seq<NetworkPacketView> = if version != local_version {
                seq![
                    NetworkPacketView::Error(
                        NetworkErrorView::VersionMismatch(version, local_version),
                    ),
                ]
            } else {
                seq![]
            };
            policy + mismatch
        }
        NetworkPacketView::Error(_) => seq![],
    }
}

/// Whether [`handle_packet`] kills the connection: an `Init` when neither
/// side would crash, or an inbound `Error` under the local no-crash policy
/// (the documented recovery choice: disconnect, never crash the process).
pub open spec fn spec_reaction_kill(local_should_crash: bool, p: NetworkPacketView) -> bool {
    match p {
        NetworkPacketView::Init { version, should_crash } => !should_crash
            && !local_should_crash,
        NetworkPacketView::Error(_) => !local_should_crash,
    }
}

/// Whether [`handle_packet`] makes the whole process abort: exactly an
/// inbound `Error` under the local crash policy, surfacing that error.
pub open spec fn spec_reaction_fatal(
    local_should_crash: bool,
    p: NetworkPacketView,
) -> Option<NetworkErrorView> {
    match p {
        NetworkPacketView::Error(e) => if local_should_crash {
            Some(e)
        } else {
            None
        },
        _ => None,
    }
}

/// Runs the handshake / packet state machine on one decoded inbound packet,
/// with the local configuration injected.
pub fn handle_packet(
    local_version: &String,
    local_should_crash: bool,
    packet: NetworkPacket,
) -> (r: Reaction)
    ensures
        packet_views(r.replies@) == spec_reaction_replies(
            local_version@,
            local_should_crash,
            packet@,
        ),
        r.kill == spec_reaction_kill(local_should_crash, packet@),
        error_option_view(r.fatal) == spec_reaction_fatal(local_should_crash, packet@),
{
    match packet {
        NetworkPacket::Init { version, should_crash } => {
            let mut replies: Vec<NetworkPacket> = Vec::new();
            let kill = !should_crash && !local_should_crash;
            if kill {
                replies.push(NetworkPacket::Error(NetworkError::ShouldCrashBothTrue));
            }
            if version != *local_version {
                replies.push(
                    NetworkPacket::Error(
                        NetworkError::VersionMismatch(version, local_version.clone()),
                    ),
                );
            }
            proof {
                assert(packet_views(replies@) =~= spec_reaction_replies(
                    local_version@,
                    local_should_crash,
                    packet@,
                ));
            }
            Reaction { replies, kill, fatal: None }
        }
        NetworkPacket::Error(e) => {
            if local_should_crash {
                Reaction { replies: Vec::new(), kill: false, fatal: Some(e) }
            } else {
                let r = Reaction { replies: Vec::new(), kill: true, fatal: None };
                proof {
                    assert(packet_views(r.replies@) =~= spec_reaction_replies(
                        local_version@,
                        local_should_crash,
                        packet@,
                    ));
                }
                r
            }
        }
    }
}

/// Handshake version mismatch: two crash-tolerant peers with differing
/// versions each queue exactly one mismatch error for the other — carrying
/// the peer's version first and their own second — and neither side's
/// reaction kills or aborts anything.
pub proof fn lemma_handshake_version_mismatch(va: Seq<char>, vb: Seq<char>)
    requires
        va != vb,
    ensures
        spec_reaction_replies(
            va,
            true,
            NetworkPacketView::Init { version: vb, should_crash: true },
        ) =~= seq![
            NetworkPacketView::Error(NetworkErrorView::VersionMismatch(vb, va)),
        ],
        spec_reaction_replies(
            vb,
            true,
            NetworkPacketView::Init { version: va, should_crash: true },
        ) =~= seq![
            NetworkPacketView::Error(NetworkErrorView::VersionMismatch(va, vb)),
        ],
        !spec_reaction_kill(true, NetworkPacketView::Init { version: vb, should_crash: true }),
        !spec_reaction_kill(true, NetworkPacketView::Init { version: va, should_crash: true }),
        spec_reaction_fatal(
            true,
            NetworkPacketView::Init { version: vb, should_crash: true },
        ) is None,
        spec_reaction_fatal(
            true,
            NetworkPacketView::Init { version: va, should_crash: true },
        ) is None,
{
}

/// Handshake mutual no-crash: whichever side processes the other's `Init`
/// first queues an `Error(ShouldCrashBothTrue)` for it and kills the
/// connection, whatever the versions are; the process itself never aborts.
pub proof fn lemma_handshake_mutual_no_crash(
    local_version: Seq<char>,
    remote_version: Seq<char>,
) ensures
        spec_reaction_replies(
            local_version,
            false,
            NetworkPacketView::Init { version: remote_version, should_crash: false },
        )[0] == NetworkPacketView::Error(NetworkErrorView::ShouldCrashBothTrue),
        spec_reaction_replies(
            local_version,
            false,
            NetworkPacketView::Init { version: remote_version, should_crash: false },
        ).len() >= 1,
        spec_reaction_kill(
            false,
            NetworkPacketView::Init { version: remote_version, should_crash: false },
        ),
        spec_reaction_fatal(
            false,
            NetworkPacketView::Init { version: remote_version, should_crash: false },
        ) is None,
{
}

/// A clean handshake: matching versions and mutual crash tolerance answer
/// an `Init` with nothing at all — no error packets, no kill, no abort.
pub proof fn lemma_handshake_clean(version: Seq<char>)
    ensures
        spec_reaction_replies(
            version,
            true,
            NetworkPacketView::Init { version, should_crash: true },
        ) =~= Seq::<NetworkPacketView>::empty(),
        !spec_reaction_kill(true, NetworkPacketView::Init { version, should_crash: true }),
        spec_reaction_fatal(
            true,
            NetworkPacketView::Init { version, should_crash: true },
        ) is None,
{
}

} // verus!
