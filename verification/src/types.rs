use vstd::prelude::*;

verus! {

/// The identity of a replica: the key by which it is found in a committee.
pub type PublicKey = u64;

/// The digest of a block: the key by which it is found in a block tree.
pub type Digest = u64;

/// A signature over a digest, as the signer hands it out.
pub type Signature = u64;

/// A quorum certificate: enough votes were gathered for block `node` in `view`.
#[derive(Clone, Copy, Debug, PartialEq, Eq, Structural)]
pub struct QC {
    pub node: Digest,
    pub view: u64,
}

impl QC {
    pub fn new(node: Digest, view: u64) -> (qc: QC)
        ensures
            qc == (QC { node, view }),
    {
        QC { node, view }
    }
}

/// What the voting logic reads of a block: its digest and the certificate it extends.
#[derive(Clone, Copy, Debug, PartialEq, Eq, Structural)]
pub struct Block {
    pub digest: Digest,
    pub justify: QC,
}

impl Block {
    pub fn hash(&self) -> (d: Digest)
        ensures
            d == self.digest,
    {
        self.digest
    }
}

/// The messages replicas exchange.
#[derive(Clone, Copy, Debug, PartialEq, Eq, Structural)]
pub enum Message {
    Propose(Block),
    ProposeInBetween(Block),
    Vote(Digest, PublicKey, Signature),
    /// Contains the last vote of the sender, so that it can tolerate more failures.
    NewView(QC, Digest, PublicKey, Signature),
}

/// A message together with its routing information.
#[derive(Clone, Copy, Debug, PartialEq, Eq, Structural)]
pub struct NetworkPackage {
    pub from: PublicKey,
    /// None means the message is a broadcast message.
    pub to: Option<PublicKey>,
    /// None means the message is a global message.
    pub view: Option<u64>,
    pub message: Message,
    pub signature: u64,
}

/// The package that `id` sends for `view`, to `to` or to everybody.
pub open spec fn spec_package(id: PublicKey, message: Message, view: u64, to: Option<PublicKey>) -> NetworkPackage {
    NetworkPackage { from: id, to, view: Some(view), message, signature: 0 }
}

/// Wraps `message` for sending by `id` in `view`.
pub fn package_message(id: PublicKey, message: Message, view: u64, to: Option<PublicKey>) -> (pkg: NetworkPackage)
    ensures
        pkg == spec_package(id, message, view, to),
{
    NetworkPackage { from: id, to, view: Some(view), message, signature: 0 }
}

} // verus!
