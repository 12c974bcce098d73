//! The relay hub: what one connection does with each thing that happens
//! to it, and how the host sends a message to a peer.
//!
//! A connection starts unregistered. Its first registration message gives
//! it a label and an entry in the registry; from then on every JSON
//! message it sends is passed to the host. When the socket ends or a write
//! fails the connection is closed and gives up its entry, unless the label
//! has passed to a later connection meanwhile.

use crate::json::{
    as_string, json_document, json_member, json_string, json_text, member, parse_document,
    write_document,
};
use crate::registry::{mailbox_send, no_owners, registered, released, Peer, Registry};
use crate::text::{join, same_text};
use tokio::sync::mpsc::UnboundedSender;
use vstd::prelude::*;
use vstd::string::StringExecFns;

verus! {

/// Where a connection stands.
#[derive(Debug)]
pub enum Phase {
    /// Accepted, but no registration message has come yet.
    Unregistered,
    /// Registered under `label`.
    Registered { label: String },
    /// Closed for good.
    Closed,
}

/// A phase as contracts see it.
pub enum PhaseView {
    Unregistered,
    Registered { label: Seq<char> },
    Closed,
}

impl View for Phase {
    type V = PhaseView;

    open spec fn view(&self) -> PhaseView {
        match self {
            Phase::Unregistered => PhaseView::Unregistered,
            Phase::Registered { label } => PhaseView::Registered { label: label@ },
            Phase::Closed => PhaseView::Closed,
        }
    }
}

/// A JSON message of a peer, decoded from the wire.
#[derive(Debug)]
pub enum Inbound {
    /// A request to register under `label`; `document` is the whole message.
    Register { label: String, document: serde_json::Value },
    /// Any other message.
    Message { document: serde_json::Value },
}

/// A decoded message as contracts see it.
pub enum InboundView {
    Register { label: Seq<char>, document: serde_json::Value },
    Message { document: serde_json::Value },
}

impl View for Inbound {
    type V = InboundView;

    open spec fn view(&self) -> InboundView {
        match self {
            Inbound::Register { label, document } => InboundView::Register {
                label: label@,
                document: *document,
            },
            Inbound::Message { document } => InboundView::Message { document: *document },
        }
    }
}

/// What can happen to a connection.
#[derive(Debug)]
pub enum Event {
    /// A text frame came in.
    Text { text: String },
    /// A frame of another kind came in.
    OtherFrame,
    /// The socket was closed, or reading from it failed.
    Ended,
    /// The mailbox handed over a message for the peer.
    Outbound { text: String },
    /// Writing to the socket failed.
    WriteFailed,
}

/// What the task of a connection has to do next.
#[derive(Debug)]
pub enum Action {
    /// Nothing: wait for the next event.
    Nothing,
    /// Hand a message of the peer registered as `label` to the host.
    Emit { label: String, payload: serde_json::Value },
    /// Write a text frame to the socket.
    Transmit { text: String },
    /// Stop: the connection is closed.
    Close,
}

/// An action as contracts see it.
pub enum ActionView {
    Nothing,
    Emit { label: Seq<char>, payload: serde_json::Value },
    Transmit { text: Seq<char> },
    Close,
}

impl View for Action {
    type V = ActionView;

    open spec fn view(&self) -> ActionView {
        match self {
            Action::Nothing => ActionView::Nothing,
            Action::Emit { label, payload } => ActionView::Emit {
                label: label@,
                payload: *payload,
            },
            Action::Transmit { text } => ActionView::Transmit { text: text@ },
            Action::Close => ActionView::Close,
        }
    }
}

/// Why a message did not reach a peer.
#[derive(Debug)]
pub enum SendError {
    /// No peer is registered under the label.
    NotConnected { label: String },
    /// The message could not be written as text.
    Encoding { detail: String },
    /// The peer's mailbox takes no more messages.
    MailboxClosed,
}

/// The label that a document asks to register under: the document has a
/// member `type` that is the string `register`, and a member `label` that
/// is a string.
pub open spec fn registration_label(document: serde_json::Value) -> Option<Seq<char>> {
    match (json_member(document, "type"@), json_member(document, "label"@)) {
        (Some(kind), Some(label)) => if json_string(kind) == Some("register"@) {
            json_string(label)
        } else {
            None
        },
        _ => None,
    }
}

/// A document as a message of the protocol.
pub open spec fn classified(document: serde_json::Value) -> InboundView {
    match registration_label(document) {
        Some(label) => InboundView::Register { label, document },
        None => InboundView::Message { document },
    }
}

/// The message that a text frame carries, or nothing where the text is no
/// JSON.
pub open spec fn wire_inbound(text: Seq<char>) -> Option<InboundView> {
    match json_document(text) {
        Some(document) => Some(classified(document)),
        None => None,
    }
}

/// The view of a decoded frame.
pub open spec fn inbound_view(inbound: Option<Inbound>) -> Option<InboundView> {
    match inbound {
        Some(message) => Some(message@),
        None => None,
    }
}

/// What a connection `id` in `phase` does with a decoded frame: its next
/// phase, the owners of the registry afterwards, and the action.
///
/// Unregistered, it takes a registration and drops anything else.
/// Registered, it passes every message on, a further registration
/// included. A frame that is no JSON is dropped.
pub open spec fn after_inbound(
    phase: PhaseView,
    owners: Map<Seq<char>, u64>,
    id: u64,
    inbound: Option<InboundView>,
) -> (PhaseView, Map<Seq<char>, u64>, ActionView) {
    match phase {
        PhaseView::Closed => (phase, owners, ActionView::Nothing),
        PhaseView::Unregistered => match inbound {
            Some(InboundView::Register { label, .. }) => (
                PhaseView::Registered { label },
                registered(owners, label, id),
                ActionView::Nothing,
            ),
            _ => (phase, owners, ActionView::Nothing),
        },
        PhaseView::Registered { label } => match inbound {
            Some(InboundView::Register { document, .. }) => (
                phase,
                owners,
                ActionView::Emit { label, payload: document },
            ),
            Some(InboundView::Message { document }) => (
                phase,
                owners,
                ActionView::Emit { label, payload: document },
            ),
            None => (phase, owners, ActionView::Nothing),
        },
    }
}

/// The owners once connection `id` in `phase` is closed.
pub open spec fn after_close(phase: PhaseView, owners: Map<Seq<char>, u64>, id: u64) -> Map<
    Seq<char>,
    u64,
> {
    match phase {
        PhaseView::Registered { label } => released(owners, label, id),
        _ => owners,
    }
}

/// What a connection `id` in `phase` does with an event: its next phase,
/// the owners of the registry afterwards, and the action. A closed
/// connection does nothing any more.
pub open spec fn after_event(
    phase: PhaseView,
    owners: Map<Seq<char>, u64>,
    id: u64,
    event: Event,
) -> (PhaseView, Map<Seq<char>, u64>, ActionView) {
    match phase {
        PhaseView::Closed => (phase, owners, ActionView::Nothing),
        _ => match event {
            Event::Text { text } => after_inbound(phase, owners, id, wire_inbound(text@)),
            Event::OtherFrame => (phase, owners, ActionView::Nothing),
            Event::Outbound { text } => (phase, owners, ActionView::Transmit { text: text@ }),
            Event::Ended => (PhaseView::Closed, after_close(phase, owners, id), ActionView::Close),
            Event::WriteFailed => (
                PhaseView::Closed,
                after_close(phase, owners, id),
                ActionView::Close,
            ),
        },
    }
}

/// What the caller of a send is told when it fails.
pub open spec fn send_error_text(error: SendError) -> Seq<char> {
    match error {
        SendError::NotConnected { label } => "Remote window '"@ + label@ + "' not connected"@,
        SendError::Encoding { detail } => detail@,
        SendError::MailboxClosed => "Failed to send message"@,
    }
}

impl SendError {
    /// What the caller is told.
    pub fn message(&self) -> (text: String)
        ensures
            text@ == send_error_text(*self),
    {
        match self {
            SendError::NotConnected { label } => {
                let mut text = join("Remote window '", label.as_str());
                text.append("' not connected");
                text
            },
            SendError::Encoding { detail } => detail.clone(),
            SendError::MailboxClosed => String::from_str("Failed to send message"),
        }
    }
}

fn registration_of(document: &serde_json::Value) -> (label: Option<String>)
    ensures
        match label {
            Some(l) => registration_label(*document) == Some(l@),
            None => registration_label(*document) is None,
        },
{
    let kind = match member(document, "type") {
        Some(kind) => kind,
        None => {
            return None;
        },
    };
    let label = match member(document, "label") {
        Some(label) => label,
        None => {
            return None;
        },
    };
    match as_string(kind) {
        Some(kind) => if same_text(kind, "register") {
            match as_string(label) {
                Some(label) => Some(String::from_str(label)),
                None => None,
            }
        } else {
            None
        },
        None => None,
    }
}

/// Reads a document as a message of the protocol.
pub fn classify(document: serde_json::Value) -> (inbound: Inbound)
    ensures
        inbound@ == classified(document),
{
    match registration_of(&document) {
        Some(label) => Inbound::Register { label, document },
        None => Inbound::Message { document },
    }
}

/// Decodes a text frame: the message it carries, or nothing where the
/// text is no JSON.
pub fn decode(text: &str) -> (inbound: Option<Inbound>)
    ensures
        inbound_view(inbound) == wire_inbound(text@),
{
    match parse_document(text) {
        Some(document) => Some(classify(document)),
        None => None,
    }
}

/// One connection of the relay: its number, its phase, and the sending
/// side of its own mailbox, which it enters into the registry when it
/// registers.
pub struct Connection {
    id: u64,
    phase: Phase,
    mailbox: UnboundedSender<String>,
}

impl Connection {
    /// The number of the connection.
    pub closed spec fn ident(&self) -> u64 {
        self.id
    }

    /// The phase of the connection.
    pub closed spec fn stage(&self) -> PhaseView {
        self.phase@
    }

    /// A connection that was just accepted.
    pub fn new(id: u64, mailbox: UnboundedSender<String>) -> (connection: Connection)
        ensures
            connection.ident() == id,
            connection.stage() == PhaseView::Unregistered,
    {
        Connection { id, phase: Phase::Unregistered, mailbox }
    }

    /// The number of the connection.
    pub fn id(&self) -> (id: u64)
        ensures
            id == self.ident(),
    {
        self.id
    }

    /// Whether the connection is closed.
    pub fn is_closed(&self) -> (closed: bool)
        ensures
            closed == (self.stage() == PhaseView::Closed),
    {
        match &self.phase {
            Phase::Closed => true,
            _ => false,
        }
    }

    /// The label the connection is registered under, if it is.
    pub fn label(&self) -> (label: Option<String>)
        ensures
            match label {
                Some(l) => self.stage() == (PhaseView::Registered { label: l@ }),
                None => !(self.stage() is Registered),
            },
    {
        match &self.phase {
            Phase::Registered { label } => Some(label.clone()),
            _ => None,
        }
    }

    /// Takes a decoded frame.
    pub fn accept(&mut self, registry: &mut Registry, inbound: Option<Inbound>) -> (action: Action)
        ensures
            final(self).ident() == old(self).ident(),
            (final(self).stage(), final(registry)@, action@) == after_inbound(
                old(self).stage(),
                old(registry)@,
                old(self).ident(),
                inbound_view(inbound),
            ),
    {
        match &self.phase {
            Phase::Closed => Action::Nothing,
            Phase::Unregistered => match inbound {
                Some(Inbound::Register { label, document: _ }) => {
                    let peer = Peer { connection: self.id, mailbox: self.mailbox.clone() };
                    registry.register(label.clone(), peer);
                    self.phase = Phase::Registered { label };
                    Action::Nothing
                },
                _ => Action::Nothing,
            },
            Phase::Registered { label } => match inbound {
                Some(Inbound::Register { label: _, document }) => Action::Emit {
                    label: label.clone(),
                    payload: document,
                },
                Some(Inbound::Message { document }) => Action::Emit {
                    label: label.clone(),
                    payload: document,
                },
                None => Action::Nothing,
            },
        }
    }

    /// Closes the connection and gives up its entry in the registry, if it
    /// still owns one.
    pub fn close(&mut self, registry: &mut Registry)
        ensures
            final(self).ident() == old(self).ident(),
            final(self).stage() == PhaseView::Closed,
            final(registry)@ == after_close(old(self).stage(), old(registry)@, old(self).ident()),
    {
        match &self.phase {
            Phase::Registered { label } => {
                registry.release(label.as_str(), self.id);
            },
            _ => {},
        }
        self.phase = Phase::Closed;
    }

    /// Takes the next event of the connection and says what its task has
    /// to do.
    pub fn handle(&mut self, registry: &mut Registry, event: Event) -> (action: Action)
        ensures
            final(self).ident() == old(self).ident(),
            (final(self).stage(), final(registry)@, action@) == after_event(
                old(self).stage(),
                old(registry)@,
                old(self).ident(),
                event,
            ),
    {
        if self.is_closed() {
            return Action::Nothing;
        }
        match event {
            Event::Text { text } => {
                let inbound = decode(text.as_str());
                self.accept(registry, inbound)
            },
            Event::OtherFrame => Action::Nothing,
            Event::Outbound { text } => Action::Transmit { text },
            Event::Ended => {
                self.close(registry);
                Action::Close
            },
            Event::WriteFailed => {
                self.close(registry);
                Action::Close
            },
        }
    }
}

/// The state of the relay that its connections and the host share: the
/// registry of peers, the published port (0 until the hub listens), and
/// how many connection numbers were given out.
pub struct RemoteServiceState {
    peers: Registry,
    port: u16,
    issued: u64,
}

impl RemoteServiceState {
    /// The owner of each registered label.
    pub closed spec fn owners(&self) -> Map<Seq<char>, u64> {
        self.peers@
    }

    /// The published port.
    pub closed spec fn published_port(&self) -> u16 {
        self.port
    }

    /// How many connection numbers were given out.
    pub closed spec fn issued(&self) -> u64 {
        self.issued
    }

    /// The state at startup: no peer, no port, no connection yet.
    pub fn new() -> (state: RemoteServiceState)
        ensures
            state.owners() == no_owners(),
            state.published_port() == 0,
            state.issued() == 0,
    {
        RemoteServiceState { peers: Registry::new(), port: 0, issued: 0 }
    }

    /// Publishes the port the hub listens on.
    pub fn publish_port(&mut self, port: u16)
        ensures
            final(self).published_port() == port,
            final(self).owners() == old(self).owners(),
            final(self).issued() == old(self).issued(),
    {
        self.port = port;
    }

    /// The published port: 0 until the hub listens.
    pub fn port(&self) -> (port: u16)
        ensures
            port == self.published_port(),
    {
        self.port
    }

    /// The registry of peers.
    pub fn registry(&self) -> (registry: &Registry)
        ensures
            registry@ == self.owners(),
    {
        &self.peers
    }

    /// Whether a peer is registered under `label`.
    pub fn is_connected(&self, label: &str) -> (connected: bool)
        ensures
            connected == self.owners().contains_key(label@),
    {
        self.peers.contains(label)
    }

    /// Takes up a connection that was just accepted and gives it the next
    /// number; nothing comes back once every number was given out. No two
    /// connections of one state have the same number.
    pub fn open_connection(&mut self, mailbox: UnboundedSender<String>) -> (connection: Option<
        Connection,
    >)
        ensures
            final(self).owners() == old(self).owners(),
            final(self).published_port() == old(self).published_port(),
            match connection {
                Some(c) => {
                    &&& c.ident() == old(self).issued()
                    &&& c.stage() == PhaseView::Unregistered
                    &&& final(self).issued() == old(self).issued() + 1
                },
                None => old(self).issued() == u64::MAX && final(self).issued() == u64::MAX,
            },
    {
        if self.issued == u64::MAX {
            return None;
        }
        let id = self.issued;
        self.issued = id + 1;
        Some(Connection::new(id, mailbox))
    }

    /// Hands the next event of `connection` to it, with the registry of
    /// this state, and says what the connection's task has to do.
    pub fn handle(&mut self, connection: &mut Connection, event: Event) -> (action: Action)
        ensures
            final(self).published_port() == old(self).published_port(),
            final(self).issued() == old(self).issued(),
            final(connection).ident() == old(connection).ident(),
            (final(connection).stage(), final(self).owners(), action@) == after_event(
                old(connection).stage(),
                old(self).owners(),
                old(connection).ident(),
                event,
            ),
    {
        connection.handle(&mut self.peers, event)
    }
}

/// Finds the peer of `label` and writes `message` as text, ready to be put
/// into the peer's mailbox.
pub fn prepare_send(
    state: &RemoteServiceState,
    label: &str,
    message: &serde_json::Value,
) -> (ready: Result<(Peer, String), SendError>)
    ensures
        match ready {
            Ok((peer, text)) => {
                &&& state.owners().contains_key(label@)
                &&& state.owners()[label@] == peer.connection
                &&& json_text(*message) == Some(text@)
            },
            Err(SendError::NotConnected { label: l }) => !state.owners().contains_key(label@) && l@
                == label@,
            Err(SendError::Encoding { .. }) => state.owners().contains_key(label@) && json_text(
                *message,
            ) is None,
            Err(SendError::MailboxClosed) => false,
        },
{
    let peer = match state.peers.lookup(label) {
        Some(peer) => peer,
        None => {
            return Err(SendError::NotConnected { label: String::from_str(label) });
        },
    };
    match write_document(message) {
        Ok(text) => Ok((peer, text)),
        Err(detail) => Err(SendError::Encoding { detail }),
    }
}

/// What a send comes to once the mailbox has answered.
pub fn delivery_outcome(delivered: bool) -> (outcome: Result<(), SendError>)
    ensures
        outcome == if delivered {
            Ok::<(), SendError>(())
        } else {
            Err::<(), SendError>(SendError::MailboxClosed)
        },
{
    if delivered {
        Ok(())
    } else {
        Err(SendError::MailboxClosed)
    }
}

/// Sends `message` to the peer registered under `label`: written as text,
/// it is put into the peer's mailbox.
///
/// The send fails with `NotConnected` exactly when no peer is registered
/// under the label, and then nothing is written or sent. It fails with
/// `Encoding` exactly when there is such a peer and the message cannot be
/// written as text. Otherwise the mailbox decides: the send succeeds, or
/// fails with `MailboxClosed`.
pub fn send_to_remote_window(
    state: &RemoteServiceState,
    label: &str,
    message: &serde_json::Value,
) -> (sent: Result<(), SendError>)
    ensures
        sent matches Err(SendError::NotConnected { label: l }) <==> !state.owners().contains_key(
            label@,
        ),
        sent matches Err(SendError::NotConnected { label: l }) ==> l@ == label@,
        sent matches Err(SendError::Encoding { .. }) <==> state.owners().contains_key(label@)
            && json_text(*message) is None,
{
    match prepare_send(state, label, message) {
        Ok((peer, text)) => delivery_outcome(mailbox_send(&peer.mailbox, text)),
        Err(error) => Err(error),
    }
}

/// Whether every entry that connection `id` owns stands under the label
/// that the connection is registered with. A connection that is not
/// registered then owns no entry.
pub open spec fn entries_accounted(phase: PhaseView, owners: Map<Seq<char>, u64>, id: u64) -> bool {
    forall|label: Seq<char>|
        owners.contains_key(label) && #[trigger] owners[label] == id ==> phase == (
            PhaseView::Registered { label }
        )
}

/// Whether connection `id` owns no entry.
pub open spec fn owns_nothing(owners: Map<Seq<char>, u64>, id: u64) -> bool {
    forall|label: Seq<char>| owners.contains_key(label) ==> #[trigger] owners[label] != id
}

/// A closed connection stays closed, changes no entry and asks for
/// nothing.
pub proof fn lemma_closed_is_final(owners: Map<Seq<char>, u64>, id: u64, event: Event)
    ensures
        after_event(PhaseView::Closed, owners, id, event) == (
            PhaseView::Closed,
            owners,
            ActionView::Nothing,
        ),
{
}

/// Whatever happens to a connection, its entries stay accounted for: it
/// owns an entry only under the label it is registered with.
pub proof fn lemma_own_entries_accounted(
    phase: PhaseView,
    owners: Map<Seq<char>, u64>,
    id: u64,
    event: Event,
)
    requires
        entries_accounted(phase, owners, id),
    ensures
        entries_accounted(
            after_event(phase, owners, id, event).0,
            after_event(phase, owners, id, event).1,
            id,
        ),
{
}

/// What happens to one connection never gives another connection an entry
/// it does not account for.
pub proof fn lemma_other_entries_accounted(
    phase: PhaseView,
    owners: Map<Seq<char>, u64>,
    id: u64,
    event: Event,
    other_phase: PhaseView,
    other: u64,
)
    requires
        other != id,
        entries_accounted(other_phase, owners, other),
    ensures
        entries_accounted(other_phase, after_event(phase, owners, id, event).1, other),
{
}

/// Once a connection is closed it owns no entry: no label leads to a
/// connection that is gone.
pub proof fn lemma_closed_owns_nothing(
    phase: PhaseView,
    owners: Map<Seq<char>, u64>,
    id: u64,
    event: Event,
)
    requires
        entries_accounted(phase, owners, id),
        after_event(phase, owners, id, event).0 == PhaseView::Closed,
    ensures
        owns_nothing(after_event(phase, owners, id, event).1, id),
{
    let after = after_event(phase, owners, id, event).1;
    assert forall|label: Seq<char>| after.contains_key(label) implies #[trigger] after[label]
        != id by {
        if after[label] == id {
            assert(owners.contains_key(label) && owners[label] == id);
        }
    }
}

/// After two connections registered under one label, one after the other,
/// the label leads to the second, and it still does once the first
/// connection is closed.
pub proof fn lemma_latest_peer_keeps_label(
    owners: Map<Seq<char>, u64>,
    label: Seq<char>,
    first: u64,
    second: u64,
    first_message: serde_json::Value,
    second_message: serde_json::Value,
)
    requires
        first != second,
    ensures
        ({
            let one = after_inbound(
                PhaseView::Unregistered,
                owners,
                first,
                Some(InboundView::Register { label, document: first_message }),
            );
            let two = after_inbound(
                PhaseView::Unregistered,
                one.1,
                second,
                Some(InboundView::Register { label, document: second_message }),
            );
            let closed = after_close(one.0, two.1, first);
            &&& one.0 == (PhaseView::Registered { label })
            &&& two.0 == (PhaseView::Registered { label })
            &&& two.1.contains_key(label) && two.1[label] == second
            &&& closed == two.1
        }),
{
}

/// A closing connection takes away its own entry and no other: the entry
/// of a label that has passed to a later connection stays.
pub proof fn lemma_close_spares_later_owner(
    owners: Map<Seq<char>, u64>,
    label: Seq<char>,
    id: u64,
    later: u64,
)
    requires
        later != id,
        owners.contains_key(label),
        owners[label] == later,
    ensures
        after_close(PhaseView::Registered { label }, owners, id) == owners,
{
}

} // verus!
