//! The peer registry: which connection owns a label, and the mailbox that
//! reaches it. The entries are kept in a `dashmap::DashMap`.
//!
//! The contracts speak of the registry before and after a call, so every
//! change goes through `&mut`: tasks that share a registry keep it behind a
//! lock and change it one at a time.

use dashmap::DashMap;
use tokio::sync::mpsc::UnboundedSender;
use vstd::prelude::*;

verus! {

/// `dashmap::DashMap`, a hash map that many tasks may share. Nothing of
/// its inside is visible here.
#[verifier::external_type_specification]
#[verifier::external_body]
#[verifier::reject_recursive_types(K)]
#[verifier::reject_recursive_types(V)]
#[verifier::reject_recursive_types(S)]
pub struct ExDashMap<K, V, S>(DashMap<K, V, S>);

/// `tokio::sync::mpsc::UnboundedSender`, the sending side of a mailbox
/// without a bound. Nothing of its inside is visible here.
#[verifier::external_type_specification]
#[verifier::external_body]
#[verifier::reject_recursive_types(T)]
pub struct ExUnboundedSender<T>(UnboundedSender<T>);

/// `UnboundedSender::clone` gives one more sending side of the same
/// mailbox. A sender is opaque here, so nothing is stated of the copy.
pub assume_specification<T>[ <UnboundedSender<T> as Clone>::clone ](
    sender: &UnboundedSender<T>,
) -> (copy: UnboundedSender<T>)
;

/// One entry of the registry: the connection that registered, and the
/// sending side of that connection's mailbox.
#[derive(Clone)]
pub struct Peer {
    pub connection: u64,
    pub mailbox: UnboundedSender<String>,
}

impl Peer {
    /// Whether this entry was made by `connection`.
    pub fn owned_by(&self, connection: u64) -> (owned: bool)
        ensures
            owned == (self.connection == connection),
    {
        self.connection == connection
    }
}

/// What a peer map holds: for each registered label, the connection that
/// owns it.
pub uninterp spec fn peer_owners(peers: DashMap<String, Peer>) -> Map<Seq<char>, u64>;

/// The owners of an empty registry.
pub open spec fn no_owners() -> Map<Seq<char>, u64> {
    Map::empty()
}

/// An empty peer map, made by `DashMap::new`.
#[verifier::external_body]
pub(crate) fn peers_new() -> (peers: DashMap<String, Peer>)
    ensures
        peer_owners(peers) == no_owners(),
{
    DashMap::new()
}

/// `DashMap::insert`: the label belongs to the new peer's connection
/// afterwards, whoever had it before; other labels keep their owners.
#[verifier::external_body]
pub(crate) fn peers_insert(peers: &mut DashMap<String, Peer>, label: String, peer: Peer)
    ensures
        peer_owners(*final(peers)) == peer_owners(*old(peers)).insert(label@, peer.connection),
{
    peers.insert(label, peer);
}

/// `DashMap::get`, with the entry copied out: a peer comes back exactly
/// when the label is registered, and it is the one of the label's owner.
#[verifier::external_body]
pub(crate) fn peers_get(peers: &DashMap<String, Peer>, label: &str) -> (found: Option<Peer>)
    ensures
        match found {
            Some(peer) => peer_owners(*peers).contains_key(label@) && peer_owners(*peers)[label@]
                == peer.connection,
            None => !peer_owners(*peers).contains_key(label@),
        },
{
    peers.get(label).map(|entry| entry.value().clone())
}

/// `DashMap::remove_if`, asked to remove the label's entry if `connection`
/// owns it: such an entry is gone afterwards, and nothing else changes.
#[verifier::external_body]
pub(crate) fn peers_remove_if_owner(peers: &mut DashMap<String, Peer>, label: &str, connection: u64)
    ensures
        peer_owners(*final(peers)) == if peer_owners(*old(peers)).contains_key(label@)
            && peer_owners(*old(peers))[label@] == connection {
            peer_owners(*old(peers)).remove(label@)
        } else {
            peer_owners(*old(peers))
        },
{
    peers.remove_if(label, |_, peer| peer.owned_by(connection));
}

/// `UnboundedSender::send`: puts a text into the mailbox without waiting.
/// The answer is `false` when the receiving side is closed or gone; nothing
/// here decides which it will be. (The call ends the process if the
/// mailbox already holds half as many messages as `usize` can count.)
#[verifier::external_body]
pub(crate) fn mailbox_send(mailbox: &UnboundedSender<String>, text: String) -> (delivered: bool) {
    mailbox.send(text).is_ok()
}

/// The owners once `connection` registered under `label`: the label is
/// its own, whoever had it before.
pub open spec fn registered(owners: Map<Seq<char>, u64>, label: Seq<char>, connection: u64) -> Map<
    Seq<char>,
    u64,
> {
    owners.insert(label, connection)
}

/// The owners once `connection` gave up `label`: the entry is gone if it
/// was this connection's, and stays if the label has passed to another.
pub open spec fn released(owners: Map<Seq<char>, u64>, label: Seq<char>, connection: u64) -> Map<
    Seq<char>,
    u64,
> {
    if owners.contains_key(label) && owners[label] == connection {
        owners.remove(label)
    } else {
        owners
    }
}

/// The registry of peers. Its view maps each registered label to the
/// connection that owns it.
pub struct Registry {
    peers: DashMap<String, Peer>,
}

impl View for Registry {
    type V = Map<Seq<char>, u64>;

    closed spec fn view(&self) -> Map<Seq<char>, u64> {
        peer_owners(self.peers)
    }
}

impl Registry {
    /// A registry without peers.
    pub fn new() -> (registry: Registry)
        ensures
            registry@ == no_owners(),
    {
        Registry { peers: peers_new() }
    }

    /// Enters `peer` under `label`. An earlier entry of that label is
    /// replaced: the last to register owns the label.
    pub fn register(&mut self, label: String, peer: Peer)
        ensures
            final(self)@ == registered(old(self)@, label@, peer.connection),
    {
        peers_insert(&mut self.peers, label, peer);
    }

    /// Removes the entry of `label` if `connection` still owns it.
    pub fn release(&mut self, label: &str, connection: u64)
        ensures
            final(self)@ == released(old(self)@, label@, connection),
    {
        peers_remove_if_owner(&mut self.peers, label, connection);
    }

    /// The peer registered under `label`, if there is one.
    pub fn lookup(&self, label: &str) -> (found: Option<Peer>)
        ensures
            match found {
                Some(peer) => self@.contains_key(label@) && self@[label@] == peer.connection,
                None => !self@.contains_key(label@),
            },
    {
        peers_get(&self.peers, label)
    }

    /// Whether a peer is registered under `label`.
    pub fn contains(&self, label: &str) -> (found: bool)
        ensures
            found == self@.contains_key(label@),
    {
        self.lookup(label).is_some()
    }
}

/// After two connections registered under one label, one after the other,
/// the label belongs to the second, and it stays with the second when the
/// first is released.
pub proof fn lemma_last_registration_owns(
    owners: Map<Seq<char>, u64>,
    label: Seq<char>,
    first: u64,
    second: u64,
)
    requires
        first != second,
    ensures
        ({
            let both = registered(registered(owners, label, first), label, second);
            &&& both.contains_key(label)
            &&& both[label] == second
            &&& released(both, label, first) == both
        }),
{
}

/// A connection that registered and is released while it still owns its
/// label leaves no entry under that label.
pub proof fn lemma_release_by_owner(owners: Map<Seq<char>, u64>, label: Seq<char>, connection: u64)
    ensures
        !released(registered(owners, label, connection), label, connection).contains_key(label),
        released(registered(owners, label, connection), label, connection) == owners.remove(label),
{
    assert(released(registered(owners, label, connection), label, connection) =~= owners.remove(
        label,
    ));
}

/// Registering and releasing one label leaves the entries of every other
/// label as they were.
pub proof fn lemma_other_labels_untouched(
    owners: Map<Seq<char>, u64>,
    label: Seq<char>,
    connection: u64,
    other: Seq<char>,
)
    requires
        other != label,
    ensures
        registered(owners, label, connection).contains_key(other) == owners.contains_key(other),
        released(owners, label, connection).contains_key(other) == owners.contains_key(other),
        owners.contains_key(other) ==> registered(owners, label, connection)[other]
            == owners[other] && released(owners, label, connection)[other] == owners[other],
{
}

} // verus!
