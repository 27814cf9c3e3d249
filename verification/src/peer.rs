//! Identities: the keypair of a node and the peer identifier derived from it.
use vstd::prelude::*;

verus! {

/// The keypair of a node. The library carries it and never looks inside.
#[verifier::external_type_specification]
#[verifier::external_body]
pub struct ExKeypair(libp2p::identity::Keypair);

/// Whether `libp2p::PeerId::from_bytes` accepts `bytes`: they spell a
/// multihash, with nothing after it, of a kind that identifies a peer.
pub uninterp spec fn is_peer_id(bytes: Seq<u8>) -> bool;

/// Calls `libp2p::PeerId::from_bytes` and says whether it accepted the bytes.
#[verifier::external_body]
fn peer_id_parses(bytes: &[u8]) -> (ok: bool)
    ensures
        ok == is_peer_id(bytes@),
{
    libp2p::PeerId::from_bytes(bytes).is_ok()
}

/// The bytes of the peer identifier that belongs to `keypair`: the multihash
/// of its public key, as `PublicKey::to_peer_id` makes it.
pub uninterp spec fn peer_id_of(keypair: libp2p::identity::Keypair) -> Seq<u8>;

/// Calls `Keypair::public`, `PublicKey::to_peer_id` and `PeerId::to_bytes`:
/// the bytes of the peer identifier that belongs to the keypair. They depend
/// on the keypair alone, and they are bytes that `PeerId::from_bytes` reads
/// back.
#[verifier::external_body]
fn keypair_peer_id(keypair: &libp2p::identity::Keypair) -> (bytes: Vec<u8>)
    ensures
        bytes@ == peer_id_of(*keypair),
        is_peer_id(bytes@),
{
    keypair.public().to_peer_id().to_bytes()
}

/// Calls `Keypair::generate_ed25519`: a new keypair from the system's
/// randomness.
#[verifier::external_body]
pub(crate) fn fresh_keypair() -> (keypair: libp2p::identity::Keypair) {
    libp2p::identity::Keypair::generate_ed25519()
}

/// Calls `Keypair::clone`: a second handle on the same keys.
#[verifier::external_body]
pub(crate) fn same_keypair(keypair: &libp2p::identity::Keypair) -> (copy:
    libp2p::identity::Keypair)
    ensures
        copy == *keypair,
{
    keypair.clone()
}

/// The keypair that `libp2p::identity::Keypair::ed25519_from_bytes` makes of
/// the secret key `secret`.
pub uninterp spec fn keypair_of(secret: Seq<u8>) -> libp2p::identity::Keypair;

/// Calls `Keypair::ed25519_from_bytes` on a copy of the secret key. The
/// call refuses only a key of another length than thirty-two bytes, so here
/// it succeeds; its error, if it gave one, would come back as text. The
/// keypair depends on the secret key alone.
#[verifier::external_body]
pub(crate) fn keypair_from_secret(secret: &[u8; 32]) -> (keypair: Result<
    libp2p::identity::Keypair,
    String,
>)
    ensures
        keypair is Ok,
        keypair matches Ok(made) ==> made == keypair_of(secret@),
{
    let mut bytes = *secret;
    match libp2p::identity::Keypair::ed25519_from_bytes(&mut bytes) {
        Ok(keypair) => Ok(keypair),
        Err(e) => Err(e.to_string()),
    }
}

/// Calls `ed25519_dalek::SigningKey::generate` with the system's randomness
/// and `SigningKey::to_bytes`: a new secret key.
#[verifier::external_body]
pub(crate) fn fresh_secret() -> (secret: [u8; 32]) {
    ed25519_dalek::SigningKey::generate(&mut rand::rngs::OsRng).to_bytes()
}

/// The identifier of a peer: the bytes of its multihash.
#[derive(Debug, PartialEq, Eq)]
pub struct PeerId {
    bytes: Vec<u8>,
}

impl View for PeerId {
    type V = Seq<u8>;

    closed spec fn view(&self) -> Seq<u8> {
        self.bytes@
    }
}

impl Clone for PeerId {
    fn clone(&self) -> (copy: Self)
        ensures
            copy@ == self@,
    {
        proof {
            use_type_invariant(self);
        }
        PeerId { bytes: self.bytes.clone() }
    }
}

impl PeerId {
    #[verifier::type_invariant]
    spec fn well_formed(&self) -> bool {
        is_peer_id(self.bytes@)
    }

    /// The identifier that `bytes` spell, where they spell one.
    pub fn from_bytes(bytes: Vec<u8>) -> (id: Option<PeerId>)
        ensures
            id is Some <==> is_peer_id(bytes@),
            id matches Some(p) ==> p@ == bytes@,
    {
        if peer_id_parses(bytes.as_slice()) {
            Some(PeerId { bytes })
        } else {
            None
        }
    }

    /// The identifier that belongs to `keypair`.
    pub fn from_keypair(keypair: &libp2p::identity::Keypair) -> (id: PeerId)
        ensures
            id@ == peer_id_of(*keypair),
            is_peer_id(id@),
    {
        PeerId { bytes: keypair_peer_id(keypair) }
    }

    /// The bytes of the identifier.
    pub fn to_bytes(&self) -> (bytes: Vec<u8>)
        ensures
            bytes@ == self@,
            is_peer_id(bytes@),
    {
        proof {
            use_type_invariant(self);
        }
        self.bytes.clone()
    }

    /// The bytes of the identifier, borrowed.
    pub fn as_bytes(&self) -> (bytes: &[u8])
        ensures
            bytes@ == self@,
            is_peer_id(bytes@),
    {
        proof {
            use_type_invariant(self);
        }
        self.bytes.as_slice()
    }
}

/// A remembered peer.
#[derive(Debug, PartialEq, Eq)]
pub struct NodeRepr {
    pub name: String,
    pub peer_id: PeerId,
}

/// A [`NodeRepr`] as mathematics.
pub struct NodeReprView {
    pub name: Seq<char>,
    pub peer_id: Seq<u8>,
}

impl View for NodeRepr {
    type V = NodeReprView;

    open spec fn view(&self) -> NodeReprView {
        NodeReprView { name: self.name@, peer_id: self.peer_id@ }
    }
}

impl Clone for NodeRepr {
    fn clone(&self) -> (copy: Self)
        ensures
            copy@ == self@,
    {
        NodeRepr { name: self.name.clone(), peer_id: self.peer_id.clone() }
    }
}

impl NodeRepr {
    /// A peer remembered under `name`.
    pub fn new(name: String, peer_id: PeerId) -> (node: NodeRepr)
        ensures
            node.name == name,
            node.peer_id == peer_id,
    {
        NodeRepr { name, peer_id }
    }
}

} // verus!
