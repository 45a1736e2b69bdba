//! Networking: wire codec, connection table, handshake and the reactor
//! (controller) state machine.

pub mod codec;
pub mod handshake;
pub mod table;

use vstd::prelude::*;

use self::codec::{all_payloads_fit, deserialize_packet, get_packet_length, payload_fits,
    seralize_packet, spec_decode_payload, spec_frame_bytes, spec_header_length};
use self::handshake::{handle_packet, packet_views, spec_reaction_fatal, spec_reaction_kill,
    spec_reaction_replies, Reaction};
use self::table::{ConnectionTable, Handle, TableError};

verus! {

/// The frames of a queue of packet values, in order.
pub open spec fn frames_of(ps: Seq<NetworkPacketView>) -> Seq<Seq<u8>> {
    ps.map_values(|p: NetworkPacketView| spec_frame_bytes(p))
}

/// The byte values of a list of frames.
pub open spec fn frame_views(fs: Seq<Vec<u8>>) -> Seq<Seq<u8>> {
    fs.map_values(|f: Vec<u8>| f@)
}

/// Represents a single connection without any notion of client or server.
///
/// Its own struct to allow for hooks and the like. The transport stream
/// itself lives with the I/O layer, keyed by the same handle as this entry;
/// what the protocol decides about the connection is all here.
#[derive(Debug)]
pub struct Connection {
    /// Packets waiting to be encoded and written on the next writable
    /// readiness event, in enqueue (FIFO) order.
    pub outbound: Vec<NetworkPacket>,
    /// The peer address the connection was accepted or opened for.
    pub addr: String,
}

/// Standard number to ensure network connections are synchronized and the
/// same protocol is being used.
///
/// Reexported in case it is of use for something not-networking.
pub const NET_MAGIC_NUMBER: u32 = 0xCB011043;

/// The maximum number of clients allowed to be connected at one time.
///
/// Eventually this should be removed and replaced with something configurable.
pub const MAX_CONNECTED_CLIENTS: usize = 30;

/// The well-known default TCP port for server listeners; callers may
/// override it when they bind.
pub const DEFAULT_PORT: u16 = 25565;

/// Sent in the case of an error that should be sent to the peer.
#[derive(Debug, Clone)]
pub enum NetworkError {
    /// If the versions mismatch sufficiently to become incompatible with
    /// each other. Carries the version from the offending `Init` packet
    /// first, the local version second.
    VersionMismatch(String, String),
    /// If both peers have `should_crash == false`, then this error should be
    /// sent.
    ///
    /// Do note that this error should not be rewrapped into a new error,
    /// since it would cause a loop. Instead, it should be logged and ignored,
    /// as the connection will be killed shortly after.
    ShouldCrashBothTrue,
}

/// Mathematical value of a [`NetworkError`]: the same variants over
/// sequences of characters.
pub enum NetworkErrorView {
    VersionMismatch(Seq<char>, Seq<char>),
    ShouldCrashBothTrue,
}

impl View for NetworkError {
    type V = NetworkErrorView;

    open spec fn view(&self) -> NetworkErrorView {
        match self {
            NetworkError::VersionMismatch(v1, v2) => NetworkErrorView::VersionMismatch(v1@, v2@),
            NetworkError::ShouldCrashBothTrue => NetworkErrorView::ShouldCrashBothTrue,
        }
    }
}

impl NetworkError {
    /// A short, fixed account of the error's kind.
    pub fn description(&self) -> (r: &'static str)
        ensures
            self is VersionMismatch ==> r@
                == "VersionMismatch: The versions of the client and server attempting to connect mismatch."@,
            self is ShouldCrashBothTrue ==> r@
                == "ShouldCrashBothTrue: Both peers have should_crash == false."@,
    {
        match self {
            NetworkError::VersionMismatch(_, _) => {
                "VersionMismatch: The versions of the client and server attempting to connect mismatch."
            }
            NetworkError::ShouldCrashBothTrue => {
                "ShouldCrashBothTrue: Both peers have should_crash == false."
            }
        }
    }

    /// The full account of the error, both versions included where it
    /// carries them.
    pub fn message(&self) -> (r: String)
        ensures
            self matches NetworkError::VersionMismatch(v1, v2) ==> r@
                == "VersionMismatch: The versions of the client and server attempting to connect mismatch. ver1: "@
                + v1@ + ", ver2: "@ + v2@,
            self is ShouldCrashBothTrue ==> r@
                == "ShouldCrashBothTrue: Both peers have should_crash == false."@,
    {
        match self {
            NetworkError::VersionMismatch(v1, v2) => {
                let mut out = String::from_str(
                    "VersionMismatch: The versions of the client and server attempting to connect mismatch. ver1: ",
                );
                out.append(v1.as_str());
                out.append(", ver2: ");
                out.append(v2.as_str());
                out
            }
            NetworkError::ShouldCrashBothTrue => {
                String::from_str("ShouldCrashBothTrue: Both peers have should_crash == false.")
            }
        }
    }
}

impl vstd::std_specs::cmp::PartialEqSpecImpl for NetworkError {
    open spec fn obeys_eq_spec() -> bool {
        true
    }

    open spec fn eq_spec(&self, other: &NetworkError) -> bool {
        self@ == other@
    }
}

impl PartialEq for NetworkError {
    fn eq(&self, other: &NetworkError) -> (r: bool) {
        match (self, other) {
            (
                NetworkError::VersionMismatch(a1, a2),
                NetworkError::VersionMismatch(b1, b2),
            ) => *a1 == *b1 && *a2 == *b2,
            (NetworkError::ShouldCrashBothTrue, NetworkError::ShouldCrashBothTrue) => true,
            _ => false,
        }
    }
}

/// Messages that can be sent between peers to facilitate various actions.
#[derive(Debug, Clone)]
pub enum NetworkPacket {
    /// Sent on connection to verify everything is in sync.
    Init {
        /// The current version of the local game.
        ///
        /// Should be formatted according to Semantic Versioning.
        version: String,
        /// If the local game should crash when an error occurs.
        ///
        /// Two peers should not have this as false, because `should_crash`
        /// will send the error to the remote peer and make it crash instead.
        /// This would cause an infinite loop if both were to do it.
        should_crash: bool,
    },
    /// An error that should crash the game and show an error to the user,
    /// but only on a peer whose policy is to crash.
    Error(NetworkError),
}

/// Mathematical value of a [`NetworkPacket`].
pub enum NetworkPacketView {
    Init { version: Seq<char>, should_crash: bool },
    Error(NetworkErrorView),
}

impl View for NetworkPacket {
    type V = NetworkPacketView;

    open spec fn view(&self) -> NetworkPacketView {
        match self {
            NetworkPacket::Init { version, should_crash } => NetworkPacketView::Init {
                version: version@,
                should_crash: *should_crash,
            },
            NetworkPacket::Error(e) => NetworkPacketView::Error(e@),
        }
    }
}

impl vstd::std_specs::cmp::PartialEqSpecImpl for NetworkPacket {
    open spec fn obeys_eq_spec() -> bool {
        true
    }

    open spec fn eq_spec(&self, other: &NetworkPacket) -> bool {
        self@ == other@
    }
}

impl PartialEq for NetworkPacket {
    fn eq(&self, other: &NetworkPacket) -> (r: bool) {
        match (self, other) {
            (
                NetworkPacket::Init { version: v1, should_crash: c1 },
                NetworkPacket::Init { version: v2, should_crash: c2 },
            ) => *v1 == *v2 && *c1 == *c2,
            (NetworkPacket::Error(e1), NetworkPacket::Error(e2)) => e1 == e2,
            _ => false,
        }
    }
}

/// Message sent to a connection to do various actions: what the I/O layer
/// must now do for one connection (or for the process) after the controller
/// applied a command or an event. The controller itself never touches a
/// socket; these directives are its only voice.
#[derive(Debug)]
pub enum ConnectionMessage {
    /// Nothing to do; the command was applied inside the table.
    DoNothing,
    /// A socket was admitted: register its stream under this handle.
    Opened(Handle),
    /// The table is full: drop the new socket without registering it.
    Refused,
    /// Read this many more payload bytes for the connection, then hand them
    /// to [`Controller::on_readable_payload`].
    ReadPayload(Handle, u16),
    /// Write these frames in order, then flush the stream.
    Write(Handle, Vec<Vec<u8>>),
    /// Deregister the stream, shut it down in both directions; its table
    /// slot is already freed.
    Close(Handle),
    /// A packet was refused because its payload overflows a frame's 16-bit
    /// length field; nothing was queued.
    TooLarge(Handle),
    /// Abort the whole process, surfacing this error.
    Crash(NetworkError),
    /// The controller shut down: stop polling and return from the loop.
    Stopped,
    /// The command arrived after shutdown; it was an explicit no-op.
    NotRunning,
    /// The handle names a connection that was already removed: a misuse,
    /// reported loudly, with no state touched.
    Stale(Handle),
}

/// Channel message sent to controller to dictate certain actions.
#[derive(Debug)]
pub enum ControllerMessage {
    /// Add a socket the I/O layer opened or accepted, identified by its peer
    /// address; the answer is an [`ConnectionMessage::Opened`] handle.
    AddSocket(String),
    /// Store one more listener for future polling. A listener can never be
    /// removed; only shutdown tears it down.
    AddListener,
    /// Append a packet to that connection's outbound queue.
    Send(Handle, NetworkPacket),
    /// Deregister the connection, shut it down, free its slot.
    Kill(Handle),
    /// Close every live connection, stop polling, and return control to the
    /// caller running the loop.
    Shutdown,
}

/// Raw representation of a controller. Used internally for things.
#[derive(Debug)]
pub struct ControllerRaw {
    /// The table of live connections.
    pub connections: ConnectionTable,
    /// Commands submitted from outside and not yet applied, oldest first.
    pub pending: Vec<ControllerMessage>,
}

/// Holds all state for networking.
///
/// Has no notion of client or server. A client can listen, if that would
/// ever be useful. The configuration — the local version and the crash
/// policy — is injected at construction and read-only afterwards.
#[derive(Debug)]
pub struct Controller {
    /// The table and the command queue.
    pub raw: ControllerRaw,
    /// The current version of the local game, spoken in every handshake.
    pub version: String,
    /// If the local game should crash when a network error occurs.
    pub should_crash: bool,
    /// False once [`ControllerMessage::Shutdown`] was applied; every later
    /// command is an explicit no-op.
    pub running: bool,
    /// How many listeners were stored. The listeners themselves live with
    /// the I/O layer; they can never be removed.
    pub listeners: usize,
}

impl Controller {
    /// The `Init` packet this controller queues for every connection it
    /// accepts or opens.
    pub open spec fn init_packet(&self) -> NetworkPacketView {
        NetworkPacketView::Init { version: self.version@, should_crash: self.should_crash }
    }

    /// Every packet of the queue fits a frame.
    pub open spec fn queue_fits(q: Seq<NetworkPacket>) -> bool {
        forall|i: int| 0 <= i < q.len() ==> codec::payload_fits((#[trigger] q[i])@)
    }

    /// Internal consistency: the table is consistent, the controller's own
    /// `Init` packet fits a frame, and so does everything queued on a live
    /// connection (so flushing never has to refuse a frame).
    pub open spec fn wf(&self) -> bool {
        &&& self.raw.connections.wf()
        &&& codec::payload_fits(self.init_packet())
        &&& forall|h: Handle|
            #[trigger] self.raw.connections.is_live(h) ==> Self::queue_fits(
                self.raw.connections.conn_at(h).outbound@,
            )
    }

    /// The two states agree on everything but the command queue and the
    /// connection table.
    pub open spec fn same_config(pre: Controller, post: Controller) -> bool {
        &&& post.version == pre.version
        &&& post.should_crash == pre.should_crash
        &&& post.running == pre.running
        &&& post.listeners == pre.listeners
    }

    /// Constructs a new Controller, without any connection or listeners,
    /// with room for [`MAX_CONNECTED_CLIENTS`] connections. The local
    /// version and crash policy are injected here, once.
    pub fn new_empty(version: String, should_crash: bool) -> (c: Controller)
        requires
            codec::payload_fits(NetworkPacketView::Init { version: version@, should_crash }),
        ensures
            c.wf(),
            c.version@ == version@,
            c.should_crash == should_crash,
            c.running,
            c.listeners == 0,
            c.raw.pending@ == Seq::<ControllerMessage>::empty(),
            c.raw.connections.live_count() == 0,
            c.raw.connections.capacity() == MAX_CONNECTED_CLIENTS,
            forall|h: Handle| !c.raw.connections.is_live(h),
    {
        Controller {
            raw: ControllerRaw {
                connections: ConnectionTable::new(MAX_CONNECTED_CLIENTS),
                pending: Vec::new(),
            },
            version,
            should_crash,
            running: true,
            listeners: 0,
        }
    }

    /// The injected crash policy: whether a received network error is fatal
    /// to the whole process here.
    pub fn check_should_crash(&self) -> (r: bool)
        ensures
            r == self.should_crash,
    {
        self.should_crash
    }

    /// Submits a command for the controller to apply on its next drain of
    /// the queue. Commands are applied in submission order.
    pub fn submit(&mut self, msg: ControllerMessage)
        ensures
            final(self).raw.pending@ == old(self).raw.pending@.push(msg),
            final(self).raw.connections == old(self).raw.connections,
            Self::same_config(*old(self), *final(self)),
    {
        self.raw.pending.push(msg);
    }

    /// Stores one more listener. The added listener can never be removed;
    /// the I/O layer polls it for new peers on every tick.
    pub fn add_listener(&mut self)
        requires
            old(self).listeners < usize::MAX,
        ensures
            final(self).listeners == old(self).listeners + 1,
            final(self).raw.connections == old(self).raw.connections,
            final(self).raw.pending == old(self).raw.pending,
            final(self).version == old(self).version,
            final(self).should_crash == old(self).should_crash,
            final(self).running == old(self).running,
    {
        self.listeners = self.listeners + 1;
    }
}

/// What admitting one socket does to the table: refused exactly when the
/// table is full (the socket is dropped unregistered), else the connection
/// is live under the handle of the one `Opened` directive, starting with
/// exactly `queued` on its outbound queue, and no other connection moves.
pub open spec fn connection_added(
    pre: ConnectionTable,
    post: ConnectionTable,
    addr: Seq<char>,
    queued: Seq<NetworkPacketView>,
    out: Seq<ConnectionMessage>,
) -> bool {
    &&& post.capacity() == pre.capacity()
    &&& if pre.live_count() < pre.capacity() {
        &&& post.live_count() == pre.live_count() + 1
        &&& out.len() == 1
        &&& out[0] matches ConnectionMessage::Opened(h) && {
            &&& !pre.is_live(h)
            &&& post.is_live(h)
            &&& packet_views(post.conn_at(h).outbound@) == queued
            &&& post.conn_at(h).addr@ == addr
            &&& forall|h2: Handle|
                pre.is_live(h2) ==> #[trigger] post.is_live(h2) && post.conn_at(h2)
                    == pre.conn_at(h2)
            &&& forall|h2: Handle| #[trigger] post.is_live(h2) ==> pre.is_live(h2) || h2 == h
        }
    } else {
        &&& post == pre
        &&& out == seq![ConnectionMessage::Refused]
    }
}

/// What killing one live connection does to the table: that handle goes
/// stale, its slot is freed, and no other connection moves.
pub open spec fn connection_killed(pre: ConnectionTable, post: ConnectionTable, h: Handle) -> bool {
    &&& post.capacity() == pre.capacity()
    &&& post.live_count() == pre.live_count() - 1
    &&& !post.is_live(h)
    &&& forall|h2: Handle|
        pre.is_live(h2) && h2 != h ==> #[trigger] post.is_live(h2) && post.conn_at(h2)
            == pre.conn_at(h2)
    &&& forall|h2: Handle| #[trigger] post.is_live(h2) ==> pre.is_live(h2) && h2 != h
}

/// What queueing the handshake's replies does to the table: they are
/// appended, in order, to that connection's outbound queue, and nothing
/// else moves.
pub open spec fn replies_queued(
    pre: ConnectionTable,
    post: ConnectionTable,
    h: Handle,
    replies: Seq<NetworkPacketView>,
) -> bool {
    &&& post.capacity() == pre.capacity()
    &&& post.live_count() == pre.live_count()
    &&& forall|h2: Handle| #[trigger] post.is_live(h2) <==> pre.is_live(h2)
    &&& packet_views(post.conn_at(h).outbound@) == packet_views(pre.conn_at(h).outbound@)
        + replies
    &&& post.conn_at(h).addr == pre.conn_at(h).addr
    &&& forall|h2: Handle|
        pre.is_live(h2) && h2 != h ==> #[trigger] post.conn_at(h2) == pre.conn_at(h2)
}

/// A one-directive answer.
fn single_message(m: ConnectionMessage) -> (v: Vec<ConnectionMessage>)
    ensures
        v@ == seq![m],
{
    let mut v: Vec<ConnectionMessage> = Vec::new();
    v.push(m);
    proof {
        assert(v@ =~= seq![m]);
    }
    v
}

impl Controller {
    /// Admits one socket into the table, optionally queueing this
    /// controller's `Init` packet on it (accepted connections always
    /// initiate the handshake; sockets added by the client role send their
    /// own `Init` as a command).
    fn admit_socket(&mut self, addr: String, queue_init: bool) -> (out: ConnectionMessage)
        requires
            old(self).wf(),
            old(self).running,
        ensures
            final(self).wf(),
            final(self).raw.pending == old(self).raw.pending,
            Self::same_config(*old(self), *final(self)),
            connection_added(
                old(self).raw.connections,
                final(self).raw.connections,
                addr@,
                if queue_init {
                    seq![old(self).init_packet()]
                } else {
                    Seq::<NetworkPacketView>::empty()
                },
                seq![out],
            ),
    {
        let mut outbound: Vec<NetworkPacket> = Vec::new();
        if queue_init {
            outbound.push(
                NetworkPacket::Init {
                    version: self.version.clone(),
                    should_crash: self.should_crash,
                },
            );
        }
        let ghost queued = packet_views(outbound@);
        proof {
            if queue_init {
                assert(queued =~= seq![old(self).init_packet()]);
            } else {
                assert(queued =~= Seq::<NetworkPacketView>::empty());
            }
        }
        let conn = Connection { outbound, addr };
        match self.raw.connections.insert(conn) {
            Ok(h) => {
                proof {
                    let pre = old(self).raw.connections;
                    let post = self.raw.connections;
                    assert forall|h2: Handle| #[trigger] post.is_live(h2) implies
                        Self::queue_fits(post.conn_at(h2).outbound@) by {
                        if h2 == h {
                            assert forall|i: int|
                                0 <= i < post.conn_at(h2).outbound@.len() implies payload_fits(
                                (#[trigger] post.conn_at(h2).outbound@[i])@,
                            ) by {
                                assert(packet_views(post.conn_at(h2).outbound@)[i]
                                    == post.conn_at(h2).outbound@[i]@);
                            };
                        } else {
                            assert(pre.is_live(h2));
                        }
                    };
                }
                ConnectionMessage::Opened(h)
            }
            Err(_) => {
                proof {
                    assert(seq![ConnectionMessage::Refused]
                        =~= seq![ConnectionMessage::Refused]);
                }
                ConnectionMessage::Refused
            }
        }
    }

    /// Tick path: a listener accepted a new peer. The peer is inserted into
    /// the table — refused without registration when the table is full — and
    /// greets with this controller's `Init`: accepted connections always
    /// initiate the handshake from the accepting side.
    pub fn on_accept(&mut self, addr: String) -> (out: ConnectionMessage)
        requires
            old(self).wf(),
        ensures
            final(self).wf(),
            final(self).raw.pending == old(self).raw.pending,
            Self::same_config(*old(self), *final(self)),
            !old(self).running ==> final(self).raw.connections == old(self).raw.connections
                && out == ConnectionMessage::NotRunning,
            old(self).running ==> connection_added(
                old(self).raw.connections,
                final(self).raw.connections,
                addr@,
                seq![old(self).init_packet()],
                seq![out],
            ),
    {
        if !self.running {
            return ConnectionMessage::NotRunning;
        }
        self.admit_socket(addr, true)
    }

    /// Removes one connection, keeping the controller's invariant.
    fn kill_connection(&mut self, h: Handle) -> (r: Result<Connection, TableError>)
        requires
            old(self).wf(),
        ensures
            final(self).wf(),
            final(self).raw.pending == old(self).raw.pending,
            Self::same_config(*old(self), *final(self)),
            r is Ok <==> old(self).raw.connections.is_live(h),
            r is Ok ==> connection_killed(
                old(self).raw.connections,
                final(self).raw.connections,
                h,
            ),
            r is Err ==> final(self).raw.connections == old(self).raw.connections,
    {
        let r = self.raw.connections.remove(h);
        proof {
            if r is Ok {
                let pre = old(self).raw.connections;
                let post = self.raw.connections;
                assert forall|h2: Handle| #[trigger] post.is_live(h2) implies Self::queue_fits(
                    post.conn_at(h2).outbound@,
                ) by {
                    assert(pre.is_live(h2) && h2 != h);
                };
            }
        }
        r
    }

    /// Encodes every packet of a queue into its frame, in order.
    fn encode_all(q: &Vec<NetworkPacket>) -> (r: Vec<Vec<u8>>)
        requires
            Self::queue_fits(q@),
        ensures
            frame_views(r@) == frames_of(packet_views(q@)),
    {
        let mut frames: Vec<Vec<u8>> = Vec::new();
        let n = q.len();
        for i in 0..n
            invariant
                n == q@.len(),
                Self::queue_fits(q@),
                frames@.len() == i,
                forall|j: int|
                    0 <= j < i ==> (#[trigger] frames@[j])@ == spec_frame_bytes(q@[j]@),
        {
            let f = match seralize_packet(&q[i]) {
                Ok(f) => f,
                Err(_) => vstd::pervasive::unreached(),
            };
            frames.push(f);
        }
        proof {
            assert(frame_views(frames@) =~= frames_of(packet_views(q@)));
        }
        frames
    }

    /// What one writable readiness event does: the live connection's queue
    /// is swapped for an empty one and its packets come back as frames to
    /// write, in enqueue order.
    pub open spec fn writable_applied(
        pre: Controller,
        post: Controller,
        h: Handle,
        out: ConnectionMessage,
    ) -> bool {
        if !pre.running {
            &&& post.raw.connections == pre.raw.connections
            &&& out == ConnectionMessage::NotRunning
        } else if !pre.raw.connections.is_live(h) {
            &&& post.raw.connections == pre.raw.connections
            &&& out == ConnectionMessage::Stale(h)
        } else {
            &&& ConnectionTable::queue_taken(pre.raw.connections, post.raw.connections, h)
            &&& out matches ConnectionMessage::Write(h2, frames) && h2 == h && frame_views(
                frames@,
            ) == frames_of(packet_views(pre.raw.connections.conn_at(h).outbound@))
        }
    }

    /// Writable readiness: atomically swaps the connection's outbound queue
    /// for an empty one and hands back every swapped-out packet, encoded, in
    /// FIFO order, to be written and flushed. A write failure afterwards is
    /// fatal for the connection: report it through
    /// [`Controller::on_io_error`].
    pub fn on_writable(&mut self, h: Handle) -> (out: ConnectionMessage)
        requires
            old(self).wf(),
        ensures
            final(self).wf(),
            final(self).raw.pending == old(self).raw.pending,
            Self::same_config(*old(self), *final(self)),
            Self::writable_applied(*old(self), *final(self), h, out),
    {
        if !self.running {
            return ConnectionMessage::NotRunning;
        }
        match self.raw.connections.take_outbound(h) {
            Err(_) => ConnectionMessage::Stale(h),
            Ok(q) => {
                proof {
                    let pre = old(self).raw.connections;
                    let post = self.raw.connections;
                    assert(Self::queue_fits(q@));
                    assert forall|h2: Handle| #[trigger] post.is_live(h2) implies
                        Self::queue_fits(post.conn_at(h2).outbound@) by {
                        assert(pre.is_live(h2));
                        if h2 == h {
                            assert(post.conn_at(h2).outbound@
                                == Seq::<NetworkPacket>::empty());
                        }
                    };
                }
                let frames = Self::encode_all(&q);
                ConnectionMessage::Write(h, frames)
            }
        }
    }

    /// A read, write or flush on the connection failed, or the peer closed:
    /// fatal to that connection only. It is killed; the process and every
    /// other connection go on.
    pub fn on_io_error(&mut self, h: Handle) -> (out: ConnectionMessage)
        requires
            old(self).wf(),
        ensures
            final(self).wf(),
            final(self).raw.pending == old(self).raw.pending,
            Self::same_config(*old(self), *final(self)),
            !old(self).running ==> final(self).raw.connections == old(self).raw.connections
                && out == ConnectionMessage::NotRunning,
            old(self).running && old(self).raw.connections.is_live(h) ==> connection_killed(
                old(self).raw.connections,
                final(self).raw.connections,
                h,
            ) && out == ConnectionMessage::Close(h),
            old(self).running && !old(self).raw.connections.is_live(h)
                ==> final(self).raw.connections == old(self).raw.connections
                && out == ConnectionMessage::Stale(h),
    {
        if !self.running {
            return ConnectionMessage::NotRunning;
        }
        match self.kill_connection(h) {
            Ok(_) => ConnectionMessage::Close(h),
            Err(_) => ConnectionMessage::Stale(h),
        }
    }

    /// Readable readiness, first half: exactly 6 header bytes were read.
    /// A bad magic number means the stream is desynchronized or foreign:
    /// the connection is killed immediately, no error packet sent (such a
    /// peer could not parse one). A good header asks the I/O layer to read
    /// the announced payload.
    pub fn on_readable_header(&mut self, h: Handle, header: [u8; 6]) -> (out: ConnectionMessage)
        requires
            old(self).wf(),
        ensures
            final(self).wf(),
            final(self).raw.pending == old(self).raw.pending,
            Self::same_config(*old(self), *final(self)),
            !old(self).running ==> final(self).raw.connections == old(self).raw.connections
                && out == ConnectionMessage::NotRunning,
            old(self).running && !old(self).raw.connections.is_live(h)
                ==> final(self).raw.connections == old(self).raw.connections
                && out == ConnectionMessage::Stale(h),
            old(self).running && old(self).raw.connections.is_live(h) && spec_header_length(
                header@,
            ) is None ==> connection_killed(
                old(self).raw.connections,
                final(self).raw.connections,
                h,
            ) && out == ConnectionMessage::Close(h),
            old(self).running && old(self).raw.connections.is_live(h) && spec_header_length(
                header@,
            ) is Some ==> final(self).raw.connections == old(self).raw.connections && out
                == ConnectionMessage::ReadPayload(h, spec_header_length(header@)->Some_0),
    {
        if !self.running {
            return ConnectionMessage::NotRunning;
        }
        let live = match self.raw.connections.get(h) {
            Ok(_) => true,
            Err(_) => false,
        };
        if !live {
            return ConnectionMessage::Stale(h);
        }
        match get_packet_length(header) {
            None => {
                match self.kill_connection(h) {
                    Ok(_) => {}
                    Err(_) => {
                        return vstd::pervasive::unreached();
                    }
                }
                ConnectionMessage::Close(h)
            }
            Some(n) => ConnectionMessage::ReadPayload(h, n),
        }
    }

    /// What one fully-read payload does. The payload is decoded — a
    /// malformed one kills the connection, no error packet sent — and the
    /// packet runs through the handshake state machine. Its replies are
    /// queued; when it asks for a kill, the queue (the replies included) is
    /// flushed first and the connection then closed, so the peer can see the
    /// error before the stream goes; when it is fatal, the one directive is
    /// to crash the process. A reply too large to frame kills the connection
    /// instead: a peer this codec cannot answer is treated like one that
    /// speaks a foreign protocol.
    pub open spec fn payload_event_applied(
        pre: Controller,
        post: Controller,
        h: Handle,
        payload: Seq<u8>,
        out: Seq<ConnectionMessage>,
    ) -> bool {
        if !pre.running {
            &&& post.raw.connections == pre.raw.connections
            &&& out == seq![ConnectionMessage::NotRunning]
        } else if !pre.raw.connections.is_live(h) {
            &&& post.raw.connections == pre.raw.connections
            &&& out == seq![ConnectionMessage::Stale(h)]
        } else {
            match spec_decode_payload(payload) {
                Err(_) => {
                    &&& connection_killed(pre.raw.connections, post.raw.connections, h)
                    &&& out == seq![ConnectionMessage::Close(h)]
                },
                Ok(pv) => {
                    let replies = spec_reaction_replies(pre.version@, pre.should_crash, pv);
                    let kill = spec_reaction_kill(pre.should_crash, pv);
                    let fatal = spec_reaction_fatal(pre.should_crash, pv);
                    if fatal is Some {
                        &&& post.raw.connections == pre.raw.connections
                        &&& out.len() == 1
                        &&& out[0] matches ConnectionMessage::Crash(e) && e@ == fatal->Some_0
                    } else if !all_payloads_fit(replies) {
                        &&& connection_killed(pre.raw.connections, post.raw.connections, h)
                        &&& out == seq![ConnectionMessage::Close(h)]
                    } else if kill {
                        &&& connection_killed(pre.raw.connections, post.raw.connections, h)
                        &&& out.len() == 2
                        &&& (out[0] matches ConnectionMessage::Write(h2, frames) && h2 == h
                            && frame_views(frames@) == frames_of(
                            packet_views(pre.raw.connections.conn_at(h).outbound@) + replies,
                        ))
                        &&& out[1] == ConnectionMessage::Close(h)
                    } else {
                        &&& replies_queued(pre.raw.connections, post.raw.connections, h, replies)
                        &&& out == seq![ConnectionMessage::DoNothing]
                    }
                },
            }
        }
    }

    /// Readable readiness, second half: exactly the announced payload bytes
    /// were read. Decodes them and feeds the packet to the handshake state
    /// machine; see [`Controller::payload_event_applied`] for everything
    /// this promises.
    #[verifier::rlimit(60)]
    #[verifier::spinoff_prover]
    pub fn on_readable_payload(&mut self, h: Handle, payload: &[u8]) -> (out: Vec<
        ConnectionMessage,
    >)
        requires
            old(self).wf(),
        ensures
            final(self).wf(),
            final(self).raw.pending == old(self).raw.pending,
            Self::same_config(*old(self), *final(self)),
            Self::payload_event_applied(*old(self), *final(self), h, payload@, out@),
    {
        if !self.running {
            return single_message(ConnectionMessage::NotRunning);
        }
        let live = match self.raw.connections.get(h) {
            Ok(_) => true,
            Err(_) => false,
        };
        if !live {
            return single_message(ConnectionMessage::Stale(h));
        }
        let packet = match deserialize_packet(payload) {
            Ok(packet) => packet,
            Err(_) => {
                match self.kill_connection(h) {
                    Ok(_) => {}
                    Err(_) => {
                        return vstd::pervasive::unreached();
                    }
                }
                return single_message(ConnectionMessage::Close(h));
            }
        };
        let ghost pv = packet@;
        let reaction = handle_packet(&self.version, self.should_crash, packet);
        let Reaction { replies, kill, fatal } = reaction;
        let ghost reply_views = spec_reaction_replies(self.version@, self.should_crash, pv);
        match fatal {
            Some(e) => {
                return single_message(ConnectionMessage::Crash(e));
            }
            None => {}
        }
        let mut all_ok = true;
        let n = replies.len();
        for i in 0..n
            invariant
                n == replies@.len(),
                all_ok <==> forall|j: int|
                    0 <= j < i ==> payload_fits((#[trigger] replies@[j])@),
        {
            let fits = match seralize_packet(&replies[i]) {
                Ok(_) => true,
                Err(_) => false,
            };
            all_ok = all_ok && fits;
        }
        proof {
            assert(packet_views(replies@) == reply_views);
            assert(reply_views.len() == replies@.len());
            assert forall|j: int| 0 <= j < reply_views.len()
                implies reply_views[j] == (replies@[j])@ by {
                assert(packet_views(replies@)[j] == (replies@[j])@);
            };
            if all_ok {
                assert forall|i: int| 0 <= i < reply_views.len() implies payload_fits(
                    #[trigger] reply_views[i],
                ) by {
                    assert(payload_fits((replies@[i])@));
                };
            } else if all_payloads_fit(reply_views) {
                assert forall|j: int| 0 <= j < replies@.len() implies payload_fits(
                    (#[trigger] replies@[j])@,
                ) by {
                    assert(payload_fits(reply_views[j]));
                };
                assert(false);
            }
            assert(all_ok <==> all_payloads_fit(reply_views));
        }
        if !all_ok {
            match self.kill_connection(h) {
                Ok(_) => {}
                Err(_) => {
                    return vstd::pervasive::unreached();
                }
            }
            return single_message(ConnectionMessage::Close(h));
        }
        let ghost reply_packets = replies@;
        match self.raw.connections.append_outbound(h, replies) {
            Ok(_) => {}
            Err(_) => {
                return vstd::pervasive::unreached();
            }
        }
        proof {
            let pre = old(self).raw.connections;
            let post = self.raw.connections;
            assert(packet_views(post.conn_at(h).outbound@) =~= packet_views(
                pre.conn_at(h).outbound@,
            ) + reply_views);
            assert forall|h2: Handle| #[trigger] post.is_live(h2) implies Self::queue_fits(
                post.conn_at(h2).outbound@,
            ) by {
                assert(pre.is_live(h2));
                if h2 == h {
                    let q = post.conn_at(h2).outbound@;
                    assert forall|j: int| 0 <= j < q.len() implies payload_fits(
                        (#[trigger] q[j])@,
                    ) by {
                        assert(q == pre.conn_at(h).outbound@ + reply_packets);
                        if j < pre.conn_at(h).outbound@.len() {
                            assert(q[j] == pre.conn_at(h).outbound@[j]);
                        } else {
                            let k = j - pre.conn_at(h).outbound@.len();
                            assert(q[j] == reply_packets[k]);
                            assert(reply_views[k] == reply_packets[k]@);
                        }
                    };
                }
            };
        }
        if kill {
            let q = match self.raw.connections.take_outbound(h) {
                Ok(q) => q,
                Err(_) => {
                    return vstd::pervasive::unreached();
                }
            };
            proof {
                assert(Self::queue_fits(q@));
                assert forall|h2: Handle| #[trigger] self.raw.connections.is_live(h2) implies
                    Self::queue_fits(self.raw.connections.conn_at(h2).outbound@) by {
                    if h2 == h {
                        assert(self.raw.connections.conn_at(h2).outbound@
                            == Seq::<NetworkPacket>::empty());
                    }
                };
            }
            let frames = Self::encode_all(&q);
            match self.kill_connection(h) {
                Ok(_) => {}
                Err(_) => {
                    return vstd::pervasive::unreached();
                }
            }
            let mut out: Vec<ConnectionMessage> = Vec::new();
            out.push(ConnectionMessage::Write(h, frames));
            out.push(ConnectionMessage::Close(h));
            proof {
                assert(packet_views(q@) == packet_views(
                    old(self).raw.connections.conn_at(h).outbound@,
                ) + reply_views);
                assert(out@[1] == ConnectionMessage::Close(h));
                assert(out@.len() == 2);
            }
            out
        } else {
            single_message(ConnectionMessage::DoNothing)
        }
    }

    /// What applying one command does. A controller that is no longer
    /// running answers every command with one explicit `NotRunning` no-op;
    /// otherwise each command acts as documented on its variant.
    pub open spec fn message_applied(
        pre: Controller,
        post: Controller,
        msg: ControllerMessage,
        out: Seq<ConnectionMessage>,
    ) -> bool {
        if !pre.running {
            &&& Self::same_config(pre, post)
            &&& post.raw.connections == pre.raw.connections
            &&& out == seq![ConnectionMessage::NotRunning]
        } else {
            match msg {
                ControllerMessage::AddSocket(addr) => {
                    &&& Self::same_config(pre, post)
                    &&& connection_added(
                        pre.raw.connections,
                        post.raw.connections,
                        addr@,
                        Seq::<NetworkPacketView>::empty(),
                        out,
                    )
                }
                ControllerMessage::AddListener => {
                    &&& post.version == pre.version
                    &&& post.should_crash == pre.should_crash
                    &&& post.running
                    &&& post.raw.connections == pre.raw.connections
                    &&& post.listeners as int == if pre.listeners < usize::MAX {
                        pre.listeners as int + 1
                    } else {
                        pre.listeners as int
                    }
                    &&& out == seq![ConnectionMessage::DoNothing]
                }
                ControllerMessage::Send(h, p) => {
                    &&& Self::same_config(pre, post)
                    &&& if !pre.raw.connections.is_live(h) {
                        &&& post.raw.connections == pre.raw.connections
                        &&& out == seq![ConnectionMessage::Stale(h)]
                    } else if !payload_fits(p@) {
                        &&& post.raw.connections == pre.raw.connections
                        &&& out == seq![ConnectionMessage::TooLarge(h)]
                    } else {
                        &&& ConnectionTable::queue_extended(
                            pre.raw.connections,
                            post.raw.connections,
                            h,
                            seq![p],
                        )
                        &&& out == seq![ConnectionMessage::DoNothing]
                    }
                }
                ControllerMessage::Kill(h) => {
                    &&& Self::same_config(pre, post)
                    &&& if pre.raw.connections.is_live(h) {
                        &&& connection_killed(pre.raw.connections, post.raw.connections, h)
                        &&& out == seq![ConnectionMessage::Close(h)]
                    } else {
                        &&& post.raw.connections == pre.raw.connections
                        &&& out == seq![ConnectionMessage::Stale(h)]
                    }
                }
                ControllerMessage::Shutdown => {
                    &&& !post.running
                    &&& post.version == pre.version
                    &&& post.should_crash == pre.should_crash
                    &&& post.listeners == pre.listeners
                    &&& forall|h: Handle| !post.raw.connections.is_live(h)
                    &&& out.len() >= 1
                    &&& out[out.len() - 1] == ConnectionMessage::Stopped
                    &&& forall|h: Handle|
                        #[trigger] pre.raw.connections.is_live(h) ==> out.contains(
                            ConnectionMessage::Close(h),
                        )
                    &&& forall|k: int|
                        0 <= k < out.len() - 1 ==> ((#[trigger] out[k]) matches
                        ConnectionMessage::Close(h2) && pre.raw.connections.is_live(h2))
                    &&& forall|k1: int, k2: int|
                        0 <= k1 < k2 < out.len() - 1 ==> (#[trigger] out[k1]) != (
                        #[trigger] out[k2])
                }
            }
        }
    }

    /// Applies one command to the controller's state, returning what the
    /// I/O layer must now do. Commands are applied only here, on the thread
    /// driving the controller, never concurrently with event handling.
    pub fn apply_message(&mut self, msg: ControllerMessage) -> (out: Vec<ConnectionMessage>)
        requires
            old(self).wf(),
        ensures
            final(self).wf(),
            final(self).raw.pending == old(self).raw.pending,
            Self::message_applied(*old(self), *final(self), msg, out@),
    {
        if !self.running {
            return single_message(ConnectionMessage::NotRunning);
        }
        match msg {
            ControllerMessage::AddSocket(addr) => {
                let directive = self.admit_socket(addr, false);
                single_message(directive)
            }
            ControllerMessage::AddListener => {
                if self.listeners < usize::MAX {
                    self.listeners = self.listeners + 1;
                }
                single_message(ConnectionMessage::DoNothing)
            }
            ControllerMessage::Send(h, p) => {
                let live = match self.raw.connections.get(h) {
                    Ok(_) => true,
                    Err(_) => false,
                };
                if !live {
                    return single_message(ConnectionMessage::Stale(h));
                }
                let fits = match seralize_packet(&p) {
                    Ok(_) => true,
                    Err(_) => false,
                };
                if !fits {
                    return single_message(ConnectionMessage::TooLarge(h));
                }
                let mut ps: Vec<NetworkPacket> = Vec::new();
                ps.push(p);
                let ghost ps_view = ps@;
                match self.raw.connections.append_outbound(h, ps) {
                    Ok(_) => {}
                    Err(_) => {
                        return vstd::pervasive::unreached();
                    }
                }
                proof {
                    let pre = old(self).raw.connections;
                    let post = self.raw.connections;
                    assert forall|h2: Handle| #[trigger] post.is_live(h2) implies
                        Self::queue_fits(post.conn_at(h2).outbound@) by {
                        assert(pre.is_live(h2));
                        if h2 == h {
                            assert(post.conn_at(h2).outbound@ == pre.conn_at(
                                h2,
                            ).outbound@ + ps_view);
                        }
                    };
                }
                single_message(ConnectionMessage::DoNothing)
            }
            ControllerMessage::Kill(h) => {
                match self.raw.connections.remove(h) {
                    Ok(_) => {
                        proof {
                            let pre = old(self).raw.connections;
                            let post = self.raw.connections;
                            assert forall|h2: Handle| #[trigger] post.is_live(h2) implies
                                Self::queue_fits(post.conn_at(h2).outbound@) by {
                                assert(pre.is_live(h2) && h2 != h);
                            };
                        }
                        single_message(ConnectionMessage::Close(h))
                    }
                    Err(_) => single_message(ConnectionMessage::Stale(h)),
                }
            }
            ControllerMessage::Shutdown => {
                self.running = false;
                let handles = self.raw.connections.live_handles();
                proof {
                    assert forall|j: int| 0 <= j < handles@.len()
                        implies self.raw.connections.is_live(#[trigger] handles@[j]) by {
                        assert(handles@.contains(handles@[j]));
                    };
                }
                let mut out: Vec<ConnectionMessage> = Vec::new();
                let n = handles.len();
                for k in 0..n
                    invariant
                        n == handles@.len(),
                        handles@.no_duplicates(),
                        self.raw.connections.wf(),
                        self.version == old(self).version,
                        self.should_crash == old(self).should_crash,
                        self.raw.pending == old(self).raw.pending,
                        !self.running,
                        self.listeners == old(self).listeners,
                        forall|j: int|
                            k <= j < n ==> old(self).raw.connections.is_live(
                                #[trigger] handles@[j],
                            ) && self.raw.connections.is_live(handles@[j])
                                && self.raw.connections.conn_at(handles@[j]) == old(
                                self,
                            ).raw.connections.conn_at(handles@[j]),
                        forall|j: int|
                            0 <= j < k ==> !self.raw.connections.is_live(#[trigger] handles@[j]),
                        forall|h: Handle|
                            #[trigger] self.raw.connections.is_live(h) ==> old(
                                self,
                            ).raw.connections.is_live(h) && handles@.contains(h),
                        out@.len() == k,
                        forall|j: int|
                            0 <= j < k ==> (#[trigger] out@[j]) == ConnectionMessage::Close(
                                handles@[j],
                            ),
                {
                    let h = handles[k];
                    match self.raw.connections.remove(h) {
                        Ok(_) => {}
                        Err(_) => {
                            return vstd::pervasive::unreached();
                        }
                    }
                    out.push(ConnectionMessage::Close(h));
                    proof {
                        assert forall|j: int| k + 1 <= j < n implies self.raw.connections.is_live(
                            #[trigger] handles@[j],
                        ) && self.raw.connections.conn_at(handles@[j]) == old(
                            self,
                        ).raw.connections.conn_at(handles@[j]) by {
                            assert(handles@[j] != handles@[k as int]);
                        };
                    }
                }
                out.push(ConnectionMessage::Stopped);
                proof {
                    let pre = *old(self);
                    assert forall|h: Handle| !self.raw.connections.is_live(h) by {
                        if self.raw.connections.is_live(h) {
                            assert(handles@.contains(h));
                            let j = choose|j: int|
                                0 <= j < handles@.len() && handles@[j] == h;
                            assert(!self.raw.connections.is_live(handles@[j]));
                        }
                    };
                    assert(out@[out@.len() - 1] == ConnectionMessage::Stopped);
                    assert forall|h: Handle|
                        #[trigger] pre.raw.connections.is_live(h) implies out@.contains(
                        ConnectionMessage::Close(h),
                    ) by {
                        assert(handles@.contains(h));
                        let j = choose|j: int| 0 <= j < handles@.len() && handles@[j] == h;
                        assert(out@[j] == ConnectionMessage::Close(h));
                    };
                    assert forall|h2: Handle| #[trigger] self.raw.connections.is_live(h2)
                        implies Self::queue_fits(self.raw.connections.conn_at(h2).outbound@) by {
                        assert(false);
                    };
                }
                out
            }
        }
    }

    /// What applying a whole list of commands, oldest first, does: each one
    /// acts as [`Controller::message_applied`] says, from the state the one
    /// before it left, and the directives come back concatenated in the same
    /// order.
    pub open spec fn messages_applied(
        pre: Controller,
        post: Controller,
        msgs: Seq<ControllerMessage>,
        out: Seq<ConnectionMessage>,
    ) -> bool
        decreases msgs.len(),
    {
        if msgs.len() == 0 {
            &&& Self::same_config(pre, post)
            &&& post.raw.connections == pre.raw.connections
            &&& out == Seq::<ConnectionMessage>::empty()
        } else {
            exists|mid: Controller, split: int|
                {
                    &&& 0 <= split <= out.len()
                    &&& #[trigger] Self::message_applied(pre, mid, msgs[0], out.take(split))
                    &&& Self::messages_applied(mid, post, msgs.drop_first(), out.skip(split))
                }
        }
    }

    /// [`Controller::message_applied`] reads nothing of the pre-state but
    /// its configuration and its table, so any state agreeing on those sees
    /// the same application.
    proof fn lemma_message_applied_congruence(
        a: Controller,
        b: Controller,
        post: Controller,
        msg: ControllerMessage,
        out: Seq<ConnectionMessage>,
    ) requires
            Self::same_config(a, b),
            a.raw.connections == b.raw.connections,
            Self::message_applied(b, post, msg, out),
        ensures
            Self::message_applied(a, post, msg, out),
    {
    }

    /// A chain of applied commands, extended by one more applied command,
    /// is the chain of the extended list.
    proof fn lemma_messages_applied_snoc(
        pre: Controller,
        mid: Controller,
        post: Controller,
        msgs: Seq<ControllerMessage>,
        msg: ControllerMessage,
        out1: Seq<ConnectionMessage>,
        out2: Seq<ConnectionMessage>,
    ) requires
            Self::messages_applied(pre, mid, msgs, out1),
            Self::message_applied(mid, post, msg, out2),
        ensures
            Self::messages_applied(pre, post, msgs.push(msg), out1 + out2),
        decreases msgs.len(),
    {
        let whole = msgs.push(msg);
        let out = out1 + out2;
        if msgs.len() == 0 {
            Self::lemma_message_applied_congruence(pre, mid, post, msg, out2);
            assert(out.take(out.len() as int) =~= out2);
            assert(out.skip(out.len() as int) =~= Seq::<ConnectionMessage>::empty());
            assert(Self::message_applied(pre, post, whole[0], out.take(out.len() as int)));
            assert(Self::messages_applied(
                post,
                post,
                whole.drop_first(),
                out.skip(out.len() as int),
            ));
        } else {
            let (mid0, split): (Controller, int) = choose|mid0: Controller, split: int|
                {
                    &&& 0 <= split <= out1.len()
                    &&& #[trigger] Self::message_applied(pre, mid0, msgs[0], out1.take(split))
                    &&& Self::messages_applied(mid0, mid, msgs.drop_first(), out1.skip(split))
                };
            Self::lemma_messages_applied_snoc(
                mid0,
                mid,
                post,
                msgs.drop_first(),
                msg,
                out1.skip(split),
                out2,
            );
            assert(whole.drop_first() =~= msgs.drop_first().push(msg));
            assert(out.take(split) =~= out1.take(split));
            assert(out.skip(split) =~= out1.skip(split) + out2);
            assert(whole[0] == msgs[0]);
            assert(Self::message_applied(pre, mid0, whole[0], out.take(split)));
            assert(Self::messages_applied(mid0, post, whole.drop_first(), out.skip(split)));
        }
    }

    /// Drains the command queue, applying every pending command in
    /// submission (FIFO) order, and returns the directives of all of them in
    /// that same order.
    pub fn check_controller_channel(&mut self) -> (out: Vec<ConnectionMessage>)
        requires
            old(self).wf(),
        ensures
            final(self).wf(),
            final(self).raw.pending@ == Seq::<ControllerMessage>::empty(),
            Self::messages_applied(*old(self), *final(self), old(self).raw.pending@, out@),
    {
        let mut msgs: Vec<ControllerMessage> = Vec::new();
        core::mem::swap(&mut msgs, &mut self.raw.pending);
        let ghost all_msgs = msgs@;
        let mut out: Vec<ConnectionMessage> = Vec::new();
        proof {
            assert(all_msgs.take(0) =~= Seq::<ControllerMessage>::empty());
        }
        while msgs.len() > 0
            invariant
                self.wf(),
                self.raw.pending@ == Seq::<ControllerMessage>::empty(),
                msgs@.len() <= all_msgs.len(),
                msgs@ == all_msgs.skip(all_msgs.len() - msgs@.len()),
                Self::messages_applied(
                    *old(self),
                    *self,
                    all_msgs.take(all_msgs.len() - msgs@.len()),
                    out@,
                ),
            decreases msgs@.len(),
        {
            let ghost done = all_msgs.len() - msgs@.len();
            let ghost prev = *self;
            let ghost prev_out = out@;
            let m = msgs.remove(0);
            proof {
                assert(m == all_msgs[done]);
                assert(msgs@ =~= all_msgs.skip(done + 1));
            }
            let mut step = self.apply_message(m);
            let ghost step_view = step@;
            out.append(&mut step);
            proof {
                Self::lemma_messages_applied_snoc(
                    *old(self),
                    prev,
                    *self,
                    all_msgs.take(done),
                    m,
                    prev_out,
                    step_view,
                );
                assert(all_msgs.take(done).push(m) =~= all_msgs.take(done + 1));
                assert(prev_out + step_view == out@);
            }
        }
        proof {
            assert(all_msgs.take(all_msgs.len() as int) =~= all_msgs);
        }
        out
    }

    /// Shutdown is final: once a shutdown command was applied, the very
    /// next command — whatever it is — changes nothing and is answered with
    /// the one explicit `NotRunning` directive, so a caller never hangs on
    /// a dead controller.
    pub proof fn lemma_commands_after_shutdown_are_noops(
        pre: Controller,
        mid: Controller,
        post: Controller,
        msg: ControllerMessage,
        out1: Seq<ConnectionMessage>,
        out2: Seq<ConnectionMessage>,
    ) requires
            Self::message_applied(pre, mid, ControllerMessage::Shutdown, out1),
            Self::message_applied(mid, post, msg, out2),
        ensures
            !mid.running,
            out2 == seq![ConnectionMessage::NotRunning],
            Self::same_config(mid, post),
            post.raw.connections == mid.raw.connections,
    {
    }

    /// Send ordering: enqueuing packets `a`, `b`, `c` on a connection whose
    /// outbound queue is empty and then flushing on a single writable event
    /// hands the frames over in exactly the order `a`, `b`, `c`.
    pub proof fn lemma_send_ordering(
        s0: Controller,
        s1: Controller,
        s2: Controller,
        s3: Controller,
        s4: Controller,
        h: Handle,
        a: NetworkPacket,
        b: NetworkPacket,
        c: NetworkPacket,
        o1: Seq<ConnectionMessage>,
        o2: Seq<ConnectionMessage>,
        o3: Seq<ConnectionMessage>,
        w: ConnectionMessage,
    ) requires
            s0.running,
            s0.raw.connections.is_live(h),
            s0.raw.connections.conn_at(h).outbound@ == Seq::<NetworkPacket>::empty(),
            payload_fits(a@),
            payload_fits(b@),
            payload_fits(c@),
            Self::message_applied(s0, s1, ControllerMessage::Send(h, a), o1),
            Self::message_applied(s1, s2, ControllerMessage::Send(h, b), o2),
            Self::message_applied(s2, s3, ControllerMessage::Send(h, c), o3),
            Self::writable_applied(s3, s4, h, w),
        ensures
            w matches ConnectionMessage::Write(h2, frames) && h2 == h && frame_views(frames@)
                == seq![spec_frame_bytes(a@), spec_frame_bytes(b@), spec_frame_bytes(c@)],
    {
        assert(s1.raw.connections.conn_at(h).outbound@ =~= seq![a]);
        assert(s2.raw.connections.conn_at(h).outbound@ =~= seq![a, b]);
        assert(s3.raw.connections.conn_at(h).outbound@ =~= seq![a, b, c]);
        assert(packet_views(seq![a, b, c]) =~= seq![a@, b@, c@]);
        assert(frames_of(seq![a@, b@, c@]) =~= seq![
            spec_frame_bytes(a@),
            spec_frame_bytes(b@),
            spec_frame_bytes(c@),
        ]);
    }
}

} // verus!
