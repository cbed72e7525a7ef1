//! Pending transfer proposals.
//!
//! A proposal records how many approvals a transfer has collected so far.  It
//! is stored under the digest of the transfer's economic parameters (sender,
//! receiver, amount and seed), so every submission of the same transfer finds
//! the same record, whoever signed it.

use vstd::prelude::*;
use vstd::bytes::{spec_u64_to_le_bytes, u64_to_le_bytes};
use vstd::utf8::encode_utf8;
use crate::crypto;
use crate::crypto::sha256;

verus! {

/// A name as it enters the key of a proposal: the number of bytes of its
/// UTF-8 encoding, as eight little-endian bytes, and then the encoding.
pub open spec fn name_input(name: Seq<char>) -> Seq<u8> {
    spec_u64_to_le_bytes(encode_utf8(name).len() as u64) + encode_utf8(name)
}

/// The bytes that are hashed to obtain the key of a proposal: the name of the
/// sender and the name of the receiver, each behind its length, then the
/// amount and the seed as eight little-endian bytes each.
///
/// The lengths keep the two names apart: no two transfers are hashed from
/// the same bytes.
pub open spec fn hash_input(from: Seq<char>, to: Seq<char>, amount: u64, seed: u64) -> Seq<u8> {
    name_input(from) + name_input(to) + spec_u64_to_le_bytes(amount) + spec_u64_to_le_bytes(seed)
}

/// The key under which the proposal for a transfer is stored.
pub open spec fn proposal_key(from: Seq<char>, to: Seq<char>, amount: u64, seed: u64) -> Seq<u8> {
    sha256(hash_input(from, to, amount, seed))
}

/// Mathematical model of a [`TransferProposal`].
pub struct TransferProposalView {
    pub from: Seq<char>,
    pub to: Seq<char>,
    pub amount: u64,
    pub seed: u64,
    pub signs: nat,
}

impl TransferProposalView {
    /// The key under which this proposal is stored.
    pub open spec fn key(self) -> Seq<u8> {
        proposal_key(self.from, self.to, self.amount, self.seed)
    }

    /// The same proposal with one more approval.
    pub open spec fn increase_signs(self) -> TransferProposalView {
        TransferProposalView { signs: self.signs + 1, ..self }
    }
}

/// A transfer waiting for approvals, as stored in the ledger.
#[derive(Debug)]
pub struct TransferProposal {
    /// Name of the sender's wallet.
    pub from: String,
    /// Name of the receiver's wallet.
    pub to: String,
    /// Amount of currency to transfer.
    pub amount: u64,
    /// Auxiliary number that tells otherwise identical transfers apart.
    pub seed: u64,
    /// Number of approvals received so far.
    pub signs: u32,
}

impl View for TransferProposal {
    type V = TransferProposalView;

    open spec fn view(&self) -> TransferProposalView {
        TransferProposalView {
            from: self.from@,
            to: self.to@,
            amount: self.amount,
            seed: self.seed,
            signs: self.signs as nat,
        }
    }
}

impl Clone for TransferProposal {
    fn clone(&self) -> (r: TransferProposal)
        ensures
            r@ == self@,
    {
        TransferProposal {
            from: self.from.clone(),
            to: self.to.clone(),
            amount: self.amount,
            seed: self.seed,
            signs: self.signs,
        }
    }
}

impl TransferProposal {
    /// Creates a proposal with the given fields.
    pub fn new(from: &str, to: &str, amount: u64, seed: u64, signs: u32) -> (r: TransferProposal)
        ensures
            r@ == (TransferProposalView {
                from: from@,
                to: to@,
                amount,
                seed,
                signs: signs as nat,
            }),
    {
        TransferProposal { from: from.to_owned(), to: to.to_owned(), amount, seed, signs }
    }

    /// Returns this proposal with one more approval.
    pub fn increase_signs(self) -> (r: TransferProposal)
        requires
            self.signs < u32::MAX,
        ensures
            r@ == self@.increase_signs(),
    {
        TransferProposal::new(
            self.from.as_str(),
            self.to.as_str(),
            self.amount,
            self.seed,
            self.signs + 1,
        )
    }

    /// Returns the key of this proposal: the digest of its sender, receiver,
    /// amount and seed.  The number of approvals does not enter.
    pub fn hash(&self) -> (r: crypto::Hash)
        ensures
            r@ == self@.key(),
    {
        proposal_hash(self.from.as_str(), self.to.as_str(), self.amount, self.seed)
    }
}

/// Appends a name to the bytes to hash: its length in bytes, then its bytes.
fn push_name(data: &mut Vec<u8>, name: &str)
    ensures
        final(data)@ == old(data)@ + name_input(name@),
{
    let bytes = name.as_bytes();
    let length_bytes = u64_to_le_bytes(bytes.len() as u64);
    data.extend_from_slice(length_bytes.as_slice());
    data.extend_from_slice(bytes);
    assert(data@ =~= old(data)@ + name_input(name@));
}

/// Computes the key of the proposal for a transfer of `amount` from `from` to
/// `to` with the given `seed`.
pub fn proposal_hash(from: &str, to: &str, amount: u64, seed: u64) -> (r: crypto::Hash)
    ensures
        r@ == proposal_key(from@, to@, amount, seed),
{
    let mut data: Vec<u8> = Vec::new();
    push_name(&mut data, from);
    push_name(&mut data, to);
    let amount_bytes = u64_to_le_bytes(amount);
    data.extend_from_slice(amount_bytes.as_slice());
    let seed_bytes = u64_to_le_bytes(seed);
    data.extend_from_slice(seed_bytes.as_slice());
    assert(data@ =~= hash_input(from@, to@, amount, seed));
    crypto::hash(data.as_slice())
}

} // verus!
