//! The three operations of the ledger and the rules by which they are
//! accepted.
//!
//! Each operation is checked in full before the ledger is touched: an
//! operation that is rejected leaves the ledger exactly as it was.  What an
//! operation answers and what it does to the ledger are given by spec
//! functions on the operation's model, and the executable `execute`
//! functions are proved to compute exactly those.

use vstd::prelude::*;
use crate::crypto;
use crate::crypto::PublicKey;
use crate::schema::{Schema, SchemaView};
use crate::transferproposal::{
    proposal_hash, proposal_key, TransferProposal, TransferProposalView,
};
use crate::wallet::{copy_keys, wallet_key, Wallet};

verus! {

/// Reasons for which an operation is rejected.
#[derive(Clone, Copy, Debug, PartialEq, Eq, Structural)]
pub enum Error {
    /// Wallet already exists.
    ///
    /// Can be emitted by `CreateWallet`.
    WalletAlreadyExists,
    /// Sender doesn't exist.
    ///
    /// Can be emitted by `Transfer`.
    SenderNotFound,
    /// Receiver doesn't exist.
    ///
    /// Can be emitted by `Transfer` or `Issue`.
    ReceiverNotFound,
    /// Insufficient currency amount.
    ///
    /// Can be emitted by `Transfer`.
    InsufficientCurrencyAmount,
    /// Not enough signs yet.
    ///
    /// No operation emits it: a transfer that still lacks approvals is
    /// accepted and recorded.
    NotEnoughSignsYet,
    /// Quorum number is not correct.
    ///
    /// Can be emitted by `CreateWallet`.
    QuorumIsNotCorrect,
    /// Sender and receiver are the same wallet.
    ///
    /// Can be emitted by `Transfer`.
    SenderSameAsReceiver,
    /// The operation was signed by a key that may not sign it.
    ///
    /// Can be emitted by `Transfer` or `CreateWallet`.
    WrongSigner,
}

impl Error {
    /// The numeric code of the error.
    pub open spec fn spec_code(self) -> u8 {
        match self {
            Error::WalletAlreadyExists => 0,
            Error::SenderNotFound => 1,
            Error::ReceiverNotFound => 2,
            Error::InsufficientCurrencyAmount => 3,
            Error::NotEnoughSignsYet => 4,
            Error::QuorumIsNotCorrect => 5,
            Error::SenderSameAsReceiver => 0,
            Error::WrongSigner => 1,
        }
    }

    /// The text that describes the error.
    pub open spec fn spec_description(self) -> Seq<char> {
        match self {
            Error::WalletAlreadyExists => "Wallet already exists"@,
            Error::SenderNotFound => "Sender doesn't exist"@,
            Error::ReceiverNotFound => "Receiver doesn't exist"@,
            Error::InsufficientCurrencyAmount => "Insufficient currency amount"@,
            Error::NotEnoughSignsYet => "Not enough signs yet"@,
            Error::QuorumIsNotCorrect => "Quorum is not correct"@,
            Error::SenderSameAsReceiver => ""@,
            Error::WrongSigner => ""@,
        }
    }

    /// Returns the numeric code under which the error is reported.
    ///
    /// `SenderSameAsReceiver` and `WrongSigner` are reported by code alone
    /// and share the codes 0 and 1 with two other errors.
    pub fn code(&self) -> (r: u8)
        ensures
            r == self.spec_code(),
    {
        match self {
            Error::WalletAlreadyExists => 0,
            Error::SenderNotFound => 1,
            Error::ReceiverNotFound => 2,
            Error::InsufficientCurrencyAmount => 3,
            Error::NotEnoughSignsYet => 4,
            Error::QuorumIsNotCorrect => 5,
            Error::SenderSameAsReceiver => 0,
            Error::WrongSigner => 1,
        }
    }

    /// Returns the text that describes the error; it is empty for the two
    /// errors that are reported by code alone.
    pub fn description(&self) -> (r: String)
        ensures
            r@ == self.spec_description(),
    {
        match self {
            Error::WalletAlreadyExists => "Wallet already exists".to_owned(),
            Error::SenderNotFound => "Sender doesn't exist".to_owned(),
            Error::ReceiverNotFound => "Receiver doesn't exist".to_owned(),
            Error::InsufficientCurrencyAmount => "Insufficient currency amount".to_owned(),
            Error::NotEnoughSignsYet => "Not enough signs yet".to_owned(),
            Error::QuorumIsNotCorrect => "Quorum is not correct".to_owned(),
            Error::SenderSameAsReceiver => "".to_owned(),
            Error::WrongSigner => "".to_owned(),
        }
    }
}

/// What the ledger answers to an operation: that it is accepted, or why it is
/// rejected.
pub type ExecutionResult = Result<(), Error>;

/// What the host hands over together with an operation.
#[derive(Clone, Copy, Debug)]
pub struct TransactionContext {
    /// The key whose signature on the operation the host has verified.
    pub author: PublicKey,
    /// The digest of the signed operation.
    pub tx_hash: crypto::Hash,
    /// The digest of the history of the wallet that the operation debits,
    /// as it is once `tx_hash` has been appended to it.
    pub sender_history_hash: crypto::Hash,
    /// The digest of the history of the wallet that the operation credits
    /// or creates, as it is once `tx_hash` has been appended to it.
    pub receiver_history_hash: crypto::Hash,
}

impl TransactionContext {
    /// Puts the four values together.
    pub fn new(
        author: PublicKey,
        tx_hash: crypto::Hash,
        sender_history_hash: crypto::Hash,
        receiver_history_hash: crypto::Hash,
    ) -> (r: TransactionContext)
        ensures
            r == (TransactionContext {
                author,
                tx_hash,
                sender_history_hash,
                receiver_history_hash,
            }),
    {
        TransactionContext { author, tx_hash, sender_history_hash, receiver_history_hash }
    }
}

/// Mathematical model of a [`Transfer`].
pub struct TransferView {
    pub from: Seq<char>,
    pub to: Seq<char>,
    pub amount: u64,
    pub seed: u64,
}

impl TransferView {
    /// The key of the sender's wallet.
    pub open spec fn from_key(self) -> Seq<u8> {
        wallet_key(self.from)
    }

    /// The key of the receiver's wallet.
    pub open spec fn to_key(self) -> Seq<u8> {
        wallet_key(self.to)
    }

    /// The key of the proposal that collects the approvals of this transfer.
    pub open spec fn key(self) -> Seq<u8> {
        proposal_key(self.from, self.to, self.amount, self.seed)
    }

    /// The reason, if any, for which the transfer is rejected before its
    /// approvals are counted.
    pub open spec fn rejection(self, s: SchemaView, author: PublicKey) -> Option<Error> {
        if self.from == self.to {
            Some(Error::SenderSameAsReceiver)
        } else if !s.wallets.contains_key(self.from_key()) {
            Some(Error::SenderNotFound)
        } else if !s.wallets[self.from_key()].authorizes(author) {
            Some(Error::WrongSigner)
        } else if !s.wallets.contains_key(self.to_key()) {
            Some(Error::ReceiverNotFound)
        } else {
            None
        }
    }

    /// The number of approvals that the transfer has once this submission is
    /// counted.
    pub open spec fn signs_after(self, s: SchemaView) -> nat {
        if s.proposals.contains_key(self.key()) {
            s.proposals[self.key()].signs + 1
        } else {
            1
        }
    }

    /// Whether this submission is the one that completes the quorum of the
    /// sender.
    pub open spec fn reaches_quorum(self, s: SchemaView, author: PublicKey) -> bool {
        self.rejection(s, author) is None && self.signs_after(s) == s.wallets[self.from_key()].quorum
    }

    /// What the ledger answers to the transfer.
    pub open spec fn result(self, s: SchemaView, author: PublicKey) -> ExecutionResult {
        match self.rejection(s, author) {
            Some(e) => Err(e),
            None => if self.reaches_quorum(s, author) && s.wallets[self.from_key()].balance
                < self.amount {
                Err(Error::InsufficientCurrencyAmount)
            } else {
                Ok(())
            },
        }
    }

    /// Whether this submission moves the funds.
    pub open spec fn executes(self, s: SchemaView, author: PublicKey) -> bool {
        self.reaches_quorum(s, author) && self.result(s, author) is Ok
    }

    /// The record of this transfer with the given number of approvals.
    pub open spec fn proposal(self, signs: nat) -> TransferProposalView {
        TransferProposalView {
            from: self.from,
            to: self.to,
            amount: self.amount,
            seed: self.seed,
            signs,
        }
    }

    /// The ledger after the approval of this submission was counted: the
    /// record of this transfer stands under its key, with one approval more
    /// than were recorded there.
    pub open spec fn record_approval(self, s: SchemaView) -> SchemaView {
        SchemaView {
            proposals: s.proposals.insert(self.key(), self.proposal(self.signs_after(s))),
            ..s
        }
    }

    /// The ledger after the amount was taken from the sender.
    pub open spec fn debited(self, s: SchemaView, context: TransactionContext) -> SchemaView {
        self.record_approval(s).decrease_wallet_balance(
            self.from_key(),
            self.amount as nat,
            context.tx_hash,
            context.sender_history_hash,
        )
    }

    /// The ledger after the transfer was handled.
    ///
    /// A rejected transfer changes nothing.  An accepted one is counted as an
    /// approval; if that completes the quorum, the amount moves from the
    /// sender to the receiver and the transaction enters both histories.
    pub open spec fn state_after(self, s: SchemaView, context: TransactionContext) -> SchemaView {
        if self.result(s, context.author) is Err {
            s
        } else if !self.executes(s, context.author) {
            self.record_approval(s)
        } else {
            self.debited(s, context).increase_wallet_balance(
                self.to_key(),
                self.amount as nat,
                context.tx_hash,
                context.receiver_history_hash,
            )
        }
    }

    /// Whether the counters that the transfer increases stay within their
    /// machine ranges: the number of approvals within 32 bits, and the
    /// balance of the receiver within 64 bits.
    pub open spec fn fits(self, s: SchemaView, author: PublicKey) -> bool {
        self.result(s, author) is Ok ==> {
            &&& self.signs_after(s) <= u32::MAX
            &&& self.executes(s, author) && self.from_key() != self.to_key()
                ==> s.wallets[self.to_key()].balance + self.amount <= u64::MAX
        }
    }
}

/// Transfer `amount` of the currency from one wallet to another.
#[derive(Debug)]
pub struct Transfer {
    /// Name of the sender's wallet.
    pub from: String,
    /// Name of the receiver's wallet.
    pub to: String,
    /// Amount of currency to transfer.
    pub amount: u64,
    /// Auxiliary number that tells otherwise identical transfers apart.
    pub seed: u64,
}

impl View for Transfer {
    type V = TransferView;

    open spec fn view(&self) -> TransferView {
        TransferView { from: self.from@, to: self.to@, amount: self.amount, seed: self.seed }
    }
}

impl Clone for Transfer {
    fn clone(&self) -> (r: Transfer)
        ensures
            r@ == self@,
    {
        Transfer {
            from: self.from.clone(),
            to: self.to.clone(),
            amount: self.amount,
            seed: self.seed,
        }
    }
}

/// The wallet of the sender and the proposal found for a transfer that
/// passed the checks on its parties.
struct Parties {
    sender: Wallet,
    pending: Option<TransferProposal>,
}

impl Parties {
    /// Tells whether one more approval completes the quorum of the sender.
    fn completes_quorum(&self) -> (r: bool)
        ensures
            r == (match self.pending {
                Some(proposal) => proposal@.signs + 1 == self.sender@.quorum,
                None => 1 == self.sender@.quorum,
            }),
    {
        match &self.pending {
            Some(proposal) => proposal.signs < u32::MAX && proposal.signs + 1 == self.sender.quorum,
            None => self.sender.quorum == 1,
        }
    }
}

impl Transfer {
    /// Checks the parties of the transfer and looks up what has been
    /// recorded of it.
    fn parties(&self, author: &PublicKey, schema: &Schema) -> (r: Result<Parties, Error>)
        requires
            schema.wf(),
        ensures
            match r {
                Ok(found) => {
                    &&& self@.rejection(schema@, *author) is None
                    &&& found.sender@ == schema@.wallets[self@.from_key()]
                    &&& found.pending is Some == schema@.proposals.contains_key(self@.key())
                    &&& found.pending is Some ==> found.pending->Some_0@
                        == schema@.proposals[self@.key()]
                },
                Err(e) => self@.rejection(schema@, *author) == Some(e),
            },
    {
        if self.from == self.to {
            return Err(Error::SenderSameAsReceiver);
        }
        let from_key = crypto::hash(self.from.as_str().as_bytes());
        let sender = match schema.wallet(&from_key) {
            Some(wallet) => wallet,
            None => {
                return Err(Error::SenderNotFound);
            },
        };
        if !sender.is_authorized(author) {
            return Err(Error::WrongSigner);
        }
        let to_key = crypto::hash(self.to.as_str().as_bytes());
        if schema.wallet(&to_key).is_none() {
            return Err(Error::ReceiverNotFound);
        }
        let key = proposal_hash(self.from.as_str(), self.to.as_str(), self.amount, self.seed);
        let pending = schema.transfer_proposal(&key);
        Ok(Parties { sender, pending })
    }

    /// Handles one submission of the transfer, signed by `context.author`.
    ///
    /// The submission is rejected if sender and receiver have the same name,
    /// if either wallet is missing, or if the author is not a key of the
    /// sender.  Otherwise it is counted as an approval.  The submission that
    /// makes the count equal to the sender's quorum moves the funds, unless
    /// the sender cannot pay, in which case it is rejected and not counted.
    pub fn execute(&self, context: &TransactionContext, schema: &mut Schema) -> (r: ExecutionResult)
        requires
            old(schema).wf(),
            self@.fits(old(schema)@, context.author),
        ensures
            final(schema).wf(),
            r == self@.result(old(schema)@, context.author),
            final(schema)@ == self@.state_after(old(schema)@, *context),
    {
        let found = match self.parties(&context.author, schema) {
            Ok(found) => found,
            Err(e) => {
                return Err(e);
            },
        };
        let reaches_quorum = found.completes_quorum();
        let Parties { sender, pending } = found;
        if reaches_quorum && sender.balance < self.amount {
            return Err(Error::InsufficientCurrencyAmount);
        }
        match pending {
            Some(proposal) => {
                let counted = TransferProposal::new(
                    self.from.as_str(),
                    self.to.as_str(),
                    self.amount,
                    self.seed,
                    proposal.signs,
                );
                schema.increase_proposal_signs(counted);
            },
            None => schema.create_transfer_proposal(&self.from, &self.to, self.amount, self.seed),
        }
        if reaches_quorum {
            schema.decrease_wallet_balance(
                sender,
                self.amount,
                &context.tx_hash,
                &context.sender_history_hash,
            );
            let to_key = crypto::hash(self.to.as_str().as_bytes());
            match schema.wallet(&to_key) {
                Some(receiver) => {
                    schema.increase_wallet_balance(
                        receiver,
                        self.amount,
                        &context.tx_hash,
                        &context.receiver_history_hash,
                    );
                },
                None => {
                    assert(false);
                },
            }
        }
        Ok(())
    }

    /// Tells what [`Transfer::execute`] would answer, without touching the
    /// ledger.
    pub fn verify(&self, author: &PublicKey, schema: &Schema) -> (r: ExecutionResult)
        requires
            schema.wf(),
        ensures
            r == self@.result(schema@, *author),
    {
        match self.parties(author, schema) {
            Ok(found) => {
                if found.completes_quorum() && found.sender.balance < self.amount {
                    Err(Error::InsufficientCurrencyAmount)
                } else {
                    Ok(())
                }
            },
            Err(e) => Err(e),
        }
    }

    /// Tells whether this submission would move the funds.
    pub fn executes(&self, author: &PublicKey, schema: &Schema) -> (r: bool)
        requires
            schema.wf(),
        ensures
            r == self@.executes(schema@, *author),
    {
        match self.parties(author, schema) {
            Ok(found) => found.completes_quorum() && found.sender.balance >= self.amount,
            Err(_) => false,
        }
    }

    /// Tells whether the counters that this submission would increase stay
    /// within their machine ranges, that is, whether [`Transfer::execute`]
    /// may be called.
    pub fn fits(&self, author: &PublicKey, schema: &Schema) -> (r: bool)
        requires
            schema.wf(),
        ensures
            r == self@.fits(schema@, *author),
    {
        let found = match self.parties(author, schema) {
            Ok(found) => found,
            Err(_) => {
                return true;
            },
        };
        let approvals_fit = match &found.pending {
            Some(proposal) => proposal.signs < u32::MAX,
            None => true,
        };
        if !approvals_fit {
            return false;
        }
        if !found.completes_quorum() || found.sender.balance < self.amount {
            return true;
        }
        let from_key = crypto::hash(self.from.as_str().as_bytes());
        let to_key = crypto::hash(self.to.as_str().as_bytes());
        if from_key == to_key {
            return true;
        }
        match schema.wallet(&to_key) {
            Some(receiver) => receiver.balance <= u64::MAX - self.amount,
            None => true,
        }
    }

    /// Handles one submission of the transfer as [`Transfer::execute`] does,
    /// unless a counter would leave its machine range: then nothing is done
    /// and `None` is returned.
    pub fn try_execute(&self, context: &TransactionContext, schema: &mut Schema) -> (r: Option<ExecutionResult>)
        requires
            old(schema).wf(),
        ensures
            final(schema).wf(),
            r is Some == self@.fits(old(schema)@, context.author),
            r is Some ==> r->Some_0 == self@.result(old(schema)@, context.author),
            r is Some ==> final(schema)@ == self@.state_after(old(schema)@, *context),
            r is None ==> final(schema)@ == old(schema)@,
    {
        if self.fits(&context.author, schema) {
            Some(self.execute(context, schema))
        } else {
            None
        }
    }
}

/// Mathematical model of an [`Issue`].
pub struct IssueView {
    pub to: Seq<char>,
    pub amount: u64,
    pub seed: u64,
}

impl IssueView {
    /// The key of the receiver's wallet.
    pub open spec fn to_key(self) -> Seq<u8> {
        wallet_key(self.to)
    }

    /// What the ledger answers to the issue.
    pub open spec fn result(self, s: SchemaView) -> ExecutionResult {
        if s.wallets.contains_key(self.to_key()) {
            Ok(())
        } else {
            Err(Error::ReceiverNotFound)
        }
    }

    /// The ledger after the issue was handled.
    pub open spec fn state_after(self, s: SchemaView, context: TransactionContext) -> SchemaView {
        if self.result(s) is Err {
            s
        } else {
            s.increase_wallet_balance(
                self.to_key(),
                self.amount as nat,
                context.tx_hash,
                context.receiver_history_hash,
            )
        }
    }

    /// Whether the balance of the receiver stays within 64 bits.
    pub open spec fn fits(self, s: SchemaView) -> bool {
        self.result(s) is Ok ==> s.wallets[self.to_key()].balance + self.amount <= u64::MAX
    }
}

/// Issue `amount` of the currency to the wallet `to`.
#[derive(Debug)]
pub struct Issue {
    /// Name of the receiver's wallet.
    pub to: String,
    /// Issued amount of currency.
    pub amount: u64,
    /// Auxiliary number that tells otherwise identical issues apart.
    pub seed: u64,
}

impl View for Issue {
    type V = IssueView;

    open spec fn view(&self) -> IssueView {
        IssueView { to: self.to@, amount: self.amount, seed: self.seed }
    }
}

impl Clone for Issue {
    fn clone(&self) -> (r: Issue)
        ensures
            r@ == self@,
    {
        Issue { to: self.to.clone(), amount: self.amount, seed: self.seed }
    }
}

impl Issue {
    /// Adds the amount to the receiver's wallet, whoever signed the issue.
    /// It is rejected only if there is no such wallet.
    pub fn execute(&self, context: &TransactionContext, schema: &mut Schema) -> (r: ExecutionResult)
        requires
            old(schema).wf(),
            self@.fits(old(schema)@),
        ensures
            final(schema).wf(),
            r == self@.result(old(schema)@),
            final(schema)@ == self@.state_after(old(schema)@, *context),
    {
        let to_key = crypto::hash(self.to.as_str().as_bytes());
        match schema.wallet(&to_key) {
            Some(wallet) => {
                schema.increase_wallet_balance(
                    wallet,
                    self.amount,
                    &context.tx_hash,
                    &context.receiver_history_hash,
                );
                Ok(())
            },
            None => Err(Error::ReceiverNotFound),
        }
    }

    /// Tells what [`Issue::execute`] would answer, without touching the
    /// ledger.
    pub fn verify(&self, schema: &Schema) -> (r: ExecutionResult)
        requires
            schema.wf(),
        ensures
            r == self@.result(schema@),
    {
        let to_key = crypto::hash(self.to.as_str().as_bytes());
        if schema.wallet(&to_key).is_some() {
            Ok(())
        } else {
            Err(Error::ReceiverNotFound)
        }
    }

    /// Tells whether the balance of the receiver stays within its machine
    /// range, that is, whether [`Issue::execute`] may be called.
    pub fn fits(&self, schema: &Schema) -> (r: bool)
        requires
            schema.wf(),
        ensures
            r == self@.fits(schema@),
    {
        let to_key = crypto::hash(self.to.as_str().as_bytes());
        match schema.wallet(&to_key) {
            Some(wallet) => wallet.balance <= u64::MAX - self.amount,
            None => true,
        }
    }

    /// Handles the issue as [`Issue::execute`] does, unless the balance of
    /// the receiver would leave its machine range: then nothing is done and
    /// `None` is returned.
    pub fn try_execute(&self, context: &TransactionContext, schema: &mut Schema) -> (r: Option<ExecutionResult>)
        requires
            old(schema).wf(),
        ensures
            final(schema).wf(),
            r is Some == self@.fits(old(schema)@),
            r is Some ==> r->Some_0 == self@.result(old(schema)@),
            r is Some ==> final(schema)@ == self@.state_after(old(schema)@, *context),
            r is None ==> final(schema)@ == old(schema)@,
    {
        if self.fits(schema) {
            Some(self.execute(context, schema))
        } else {
            None
        }
    }
}

/// Mathematical model of a [`CreateWallet`].
pub struct CreateWalletView {
    pub name: Seq<char>,
    pub pub_keys: Seq<PublicKey>,
    pub quorum: nat,
}

impl CreateWalletView {
    /// The key of the wallet to create.
    pub open spec fn key(self) -> Seq<u8> {
        wallet_key(self.name)
    }

    /// What the ledger answers to the creation.
    pub open spec fn result(self, s: SchemaView, author: PublicKey) -> ExecutionResult {
        if self.pub_keys.len() == 0 || self.pub_keys[0] != author {
            Err(Error::WrongSigner)
        } else if s.wallets.contains_key(self.key()) {
            Err(Error::WalletAlreadyExists)
        } else if self.quorum == 0 || self.quorum > self.pub_keys.len() {
            Err(Error::QuorumIsNotCorrect)
        } else {
            Ok(())
        }
    }

    /// The ledger after the creation was handled.
    pub open spec fn state_after(self, s: SchemaView, context: TransactionContext) -> SchemaView {
        if self.result(s, context.author) is Err {
            s
        } else {
            s.create_wallet(
                self.name,
                self.pub_keys,
                self.quorum,
                context.tx_hash,
                context.receiver_history_hash,
            )
        }
    }
}

/// Create wallet with the given `name`.
#[derive(Debug)]
pub struct CreateWallet {
    /// Name of the new wallet.
    pub name: String,
    /// Keys that may approve transfers from the wallet.
    pub pub_keys: Vec<PublicKey>,
    /// Number of approvals a transfer from the wallet needs.
    pub quorum: u32,
}

impl View for CreateWallet {
    type V = CreateWalletView;

    open spec fn view(&self) -> CreateWalletView {
        CreateWalletView { name: self.name@, pub_keys: self.pub_keys@, quorum: self.quorum as nat }
    }
}

impl Clone for CreateWallet {
    fn clone(&self) -> (r: CreateWallet)
        ensures
            r@ == self@,
    {
        CreateWallet {
            name: self.name.clone(),
            pub_keys: copy_keys(&self.pub_keys),
            quorum: self.quorum,
        }
    }
}

impl CreateWallet {
    /// Tells what [`CreateWallet::execute`] would answer, without touching
    /// the ledger.
    pub fn verify(&self, author: &PublicKey, schema: &Schema) -> (r: ExecutionResult)
        requires
            schema.wf(),
        ensures
            r == self@.result(schema@, *author),
    {
        if self.pub_keys.len() == 0 {
            return Err(Error::WrongSigner);
        }
        proof {
            author.lemma_view(self.pub_keys@[0]);
        }
        if self.pub_keys[0] != *author {
            return Err(Error::WrongSigner);
        }
        let key = crypto::hash(self.name.as_str().as_bytes());
        if schema.wallet(&key).is_some() {
            return Err(Error::WalletAlreadyExists);
        }
        if self.quorum == 0 || self.quorum as usize > self.pub_keys.len() {
            return Err(Error::QuorumIsNotCorrect);
        }
        Ok(())
    }

    /// Creates the wallet with the initial balance.
    ///
    /// The creation is rejected if the author is not the first of the keys,
    /// if a wallet of that name exists, or if the quorum is zero or larger
    /// than the number of keys.
    pub fn execute(&self, context: &TransactionContext, schema: &mut Schema) -> (r: ExecutionResult)
        requires
            old(schema).wf(),
        ensures
            final(schema).wf(),
            r == self@.result(old(schema)@, context.author),
            final(schema)@ == self@.state_after(old(schema)@, *context),
    {
        match self.verify(&context.author, schema) {
            Ok(()) => {
                let _ = schema.create_wallet(
                    &self.name,
                    &self.pub_keys,
                    self.quorum,
                    &context.tx_hash,
                    &context.receiver_history_hash,
                );
                Ok(())
            },
            Err(e) => Err(e),
        }
    }
}

/// The histories that an operation extends, as they are once the
/// transaction has been appended to them.
#[derive(Debug)]
pub struct ExtendedHistories {
    /// The history of the wallet that the operation debits, if it debits one.
    pub sender: Option<Vec<crypto::Hash>>,
    /// The history of the wallet that the operation credits or creates, if
    /// it credits one.
    pub receiver: Option<Vec<crypto::Hash>>,
}

/// Whether `history` holds what `model` says.
pub open spec fn same_history(
    history: Option<Vec<crypto::Hash>>,
    model: Option<Seq<crypto::Hash>>,
) -> bool {
    match (history, model) {
        (Some(h), Some(m)) => h@ == m,
        (None, None) => true,
        _ => false,
    }
}

/// The operations of the ledger.
#[derive(Debug)]
pub enum WalletTransactions {
    /// Transfer tx.
    Transfer(Transfer),
    /// Issue tx.
    Issue(Issue),
    /// CreateWallet tx.
    CreateWallet(CreateWallet),
}

impl Clone for WalletTransactions {
    fn clone(&self) -> (r: WalletTransactions)
        ensures
            match (*self, r) {
                (WalletTransactions::Transfer(a), WalletTransactions::Transfer(b)) => a@ == b@,
                (WalletTransactions::Issue(a), WalletTransactions::Issue(b)) => a@ == b@,
                (WalletTransactions::CreateWallet(a), WalletTransactions::CreateWallet(b)) => a@
                    == b@,
                _ => false,
            },
    {
        match self {
            WalletTransactions::Transfer(tx) => WalletTransactions::Transfer(tx.clone()),
            WalletTransactions::Issue(tx) => WalletTransactions::Issue(tx.clone()),
            WalletTransactions::CreateWallet(tx) => WalletTransactions::CreateWallet(tx.clone()),
        }
    }
}

impl WalletTransactions {
    /// What the ledger answers to the operation.
    pub open spec fn result(self, s: SchemaView, author: PublicKey) -> ExecutionResult {
        match self {
            WalletTransactions::Transfer(tx) => tx@.result(s, author),
            WalletTransactions::Issue(tx) => tx@.result(s),
            WalletTransactions::CreateWallet(tx) => tx@.result(s, author),
        }
    }

    /// The ledger after the operation was handled.
    pub open spec fn state_after(self, s: SchemaView, context: TransactionContext) -> SchemaView {
        match self {
            WalletTransactions::Transfer(tx) => tx@.state_after(s, context),
            WalletTransactions::Issue(tx) => tx@.state_after(s, context),
            WalletTransactions::CreateWallet(tx) => tx@.state_after(s, context),
        }
    }

    /// Whether the counters that the operation increases stay within their
    /// machine ranges.
    pub open spec fn fits(self, s: SchemaView, author: PublicKey) -> bool {
        match self {
            WalletTransactions::Transfer(tx) => tx@.fits(s, author),
            WalletTransactions::Issue(tx) => tx@.fits(s),
            WalletTransactions::CreateWallet(tx) => true,
        }
    }

    /// The history of the wallet that the operation debits, as it is once
    /// the transaction has been appended; `None` if the operation debits no
    /// wallet.  This is the history whose digest the operation expects as
    /// `sender_history_hash`.
    pub open spec fn sender_history(
        self,
        s: SchemaView,
        author: PublicKey,
        tx_hash: crypto::Hash,
    ) -> Option<Seq<crypto::Hash>> {
        match self {
            WalletTransactions::Transfer(tx) => if tx@.executes(s, author) {
                Some(s.history(tx@.from_key()).push(tx_hash))
            } else {
                None
            },
            _ => None,
        }
    }

    /// The history of the wallet that the operation credits or creates, as
    /// it is once the transaction has been appended; `None` if the operation
    /// credits no wallet.  This is the history whose digest the operation
    /// expects as `receiver_history_hash`.
    pub open spec fn receiver_history(
        self,
        s: SchemaView,
        author: PublicKey,
        tx_hash: crypto::Hash,
    ) -> Option<Seq<crypto::Hash>> {
        match self {
            WalletTransactions::Transfer(tx) => if !tx@.executes(s, author) {
                None
            } else if tx@.from_key() == tx@.to_key() {
                Some(s.history(tx@.to_key()).push(tx_hash).push(tx_hash))
            } else {
                Some(s.history(tx@.to_key()).push(tx_hash))
            },
            WalletTransactions::Issue(tx) => if tx@.result(s) is Ok {
                Some(s.history(tx@.to_key()).push(tx_hash))
            } else {
                None
            },
            WalletTransactions::CreateWallet(tx) => if tx@.result(s, author) is Ok {
                Some(s.history(tx@.key()).push(tx_hash))
            } else {
                None
            },
        }
    }

    /// Tells what [`WalletTransactions::execute`] would answer, without
    /// touching the ledger.
    pub fn verify(&self, author: &PublicKey, schema: &Schema) -> (r: ExecutionResult)
        requires
            schema.wf(),
        ensures
            r == self.result(schema@, *author),
    {
        match self {
            WalletTransactions::Transfer(tx) => tx.verify(author, schema),
            WalletTransactions::Issue(tx) => tx.verify(schema),
            WalletTransactions::CreateWallet(tx) => tx.verify(author, schema),
        }
    }

    /// Returns the histories that the operation would extend, each with the
    /// transaction `tx_hash` appended.
    ///
    /// The host takes the digests of these histories and hands them over
    /// with the operation, as the two history digests of its context.
    pub fn extended_histories(
        &self,
        author: &PublicKey,
        tx_hash: &crypto::Hash,
        schema: &Schema,
    ) -> (r: ExtendedHistories)
        requires
            schema.wf(),
        ensures
            same_history(r.sender, self.sender_history(schema@, *author, *tx_hash)),
            same_history(r.receiver, self.receiver_history(schema@, *author, *tx_hash)),
    {
        match self {
            WalletTransactions::Transfer(tx) => {
                if !tx.executes(author, schema) {
                    return ExtendedHistories { sender: None, receiver: None };
                }
                let from_key = crypto::hash(tx.from.as_str().as_bytes());
                let to_key = crypto::hash(tx.to.as_str().as_bytes());
                let mut sender = schema.wallet_history(&from_key);
                sender.push(*tx_hash);
                let mut receiver = schema.wallet_history(&to_key);
                if from_key == to_key {
                    receiver.push(*tx_hash);
                }
                receiver.push(*tx_hash);
                ExtendedHistories { sender: Some(sender), receiver: Some(receiver) }
            },
            WalletTransactions::Issue(tx) => {
                if tx.verify(schema).is_err() {
                    return ExtendedHistories { sender: None, receiver: None };
                }
                let to_key = crypto::hash(tx.to.as_str().as_bytes());
                let mut receiver = schema.wallet_history(&to_key);
                receiver.push(*tx_hash);
                ExtendedHistories { sender: None, receiver: Some(receiver) }
            },
            WalletTransactions::CreateWallet(tx) => {
                if tx.verify(author, schema).is_err() {
                    return ExtendedHistories { sender: None, receiver: None };
                }
                let key = crypto::hash(tx.name.as_str().as_bytes());
                let mut receiver = schema.wallet_history(&key);
                receiver.push(*tx_hash);
                ExtendedHistories { sender: None, receiver: Some(receiver) }
            },
        }
    }

    /// Handles one operation: answers whether it is accepted, and changes the
    /// ledger accordingly.
    pub fn execute(&self, context: &TransactionContext, schema: &mut Schema) -> (r: ExecutionResult)
        requires
            old(schema).wf(),
            self.fits(old(schema)@, context.author),
        ensures
            final(schema).wf(),
            r == self.result(old(schema)@, context.author),
            final(schema)@ == self.state_after(old(schema)@, *context),
    {
        match self {
            WalletTransactions::Transfer(tx) => tx.execute(context, schema),
            WalletTransactions::Issue(tx) => tx.execute(context, schema),
            WalletTransactions::CreateWallet(tx) => tx.execute(context, schema),
        }
    }

    /// Handles one operation as [`WalletTransactions::execute`] does, unless
    /// a counter would leave its machine range: then nothing is done and
    /// `None` is returned.
    pub fn try_execute(&self, context: &TransactionContext, schema: &mut Schema) -> (r: Option<ExecutionResult>)
        requires
            old(schema).wf(),
        ensures
            final(schema).wf(),
            r is Some == self.fits(old(schema)@, context.author),
            r is Some ==> r->Some_0 == self.result(old(schema)@, context.author),
            r is Some ==> final(schema)@ == self.state_after(old(schema)@, *context),
            r is None ==> final(schema)@ == old(schema)@,
    {
        match self {
            WalletTransactions::Transfer(tx) => tx.try_execute(context, schema),
            WalletTransactions::Issue(tx) => tx.try_execute(context, schema),
            WalletTransactions::CreateWallet(tx) => Some(tx.execute(context, schema)),
        }
    }
}

} // verus!
