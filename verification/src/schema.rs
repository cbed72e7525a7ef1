//! The ledger: wallets, their histories and the pending transfer proposals.
//!
//! [`Schema`] owns the three collections and is the only way to change them.
//! A balance never changes without the transaction that caused the change
//! being appended to the history of the wallet, so the length recorded in a
//! wallet always is the length of its history.
//!
//! [`SchemaView`] is the mathematical model of the ledger that all contracts
//! speak of: three finite maps keyed by digests.

use vstd::prelude::*;
use crate::crypto;
use crate::crypto::PublicKey;
use crate::table::Table;
use crate::transferproposal::{TransferProposal, TransferProposalView};
use crate::wallet::{copy_keys, wallet_key, Wallet, WalletView};
use crate::INITIAL_BALANCE;

verus! {

/// Mathematical model of a [`Schema`].
pub struct SchemaView {
    /// The wallets, by the digest of their names.
    pub wallets: Map<Seq<u8>, WalletView>,
    /// The history of each wallet: the transactions that changed its balance,
    /// oldest first.
    pub histories: Map<Seq<u8>, Seq<crypto::Hash>>,
    /// The transfer proposals, by the digest of their parameters.
    pub proposals: Map<Seq<u8>, TransferProposalView>,
}

impl SchemaView {
    /// The ledger that holds nothing.
    pub open spec fn empty() -> SchemaView {
        SchemaView { wallets: Map::empty(), histories: Map::empty(), proposals: Map::empty() }
    }

    /// The history stored under `key`; empty where there is none.
    pub open spec fn history(self, key: Seq<u8>) -> Seq<crypto::Hash> {
        if self.histories.contains_key(key) {
            self.histories[key]
        } else {
            Seq::empty()
        }
    }

    /// What holds of every ledger that the operations of [`Schema`] produce.
    ///
    /// Wallets and histories have the same keys; each wallet is stored under
    /// the digest of its own name, records the length of its history, and has
    /// a quorum between one and the number of its keys; each proposal is
    /// stored under its own digest and has at least one approval.
    pub open spec fn consistent(self) -> bool {
        &&& self.wallets.dom() == self.histories.dom()
        &&& forall|k: Seq<u8>| #[trigger]
            self.wallets.contains_key(k) ==> {
                &&& self.wallets[k].key() == k
                &&& self.wallets[k].history_len == self.histories[k].len()
                &&& self.wallets[k].quorum_is_valid()
            }
        &&& forall|k: Seq<u8>| #[trigger]
            self.proposals.contains_key(k) ==> {
                &&& self.proposals[k].key() == k
                &&& self.proposals[k].signs >= 1
            }
    }

    /// Whether `wallet` is what the ledger stores under the name of `wallet`.
    pub open spec fn holds(self, wallet: WalletView) -> bool {
        self.wallets.contains_key(wallet.key()) && self.wallets[wallet.key()] == wallet
    }

    /// The ledger after the balance of the wallet under `key` was set to
    /// `balance` because of `transaction`.
    pub open spec fn set_balance(
        self,
        key: Seq<u8>,
        balance: nat,
        transaction: crypto::Hash,
        history_hash: crypto::Hash,
    ) -> SchemaView
        recommends
            self.wallets.contains_key(key),
    {
        SchemaView {
            wallets: self.wallets.insert(key, self.wallets[key].set_balance(balance, history_hash)),
            histories: self.histories.insert(key, self.history(key).push(transaction)),
            ..self
        }
    }

    /// The ledger after `amount` was added to the wallet under `key`.
    pub open spec fn increase_wallet_balance(
        self,
        key: Seq<u8>,
        amount: nat,
        transaction: crypto::Hash,
        history_hash: crypto::Hash,
    ) -> SchemaView
        recommends
            self.wallets.contains_key(key),
    {
        self.set_balance(key, self.wallets[key].balance + amount, transaction, history_hash)
    }

    /// The ledger after `amount` was taken from the wallet under `key`.
    pub open spec fn decrease_wallet_balance(
        self,
        key: Seq<u8>,
        amount: nat,
        transaction: crypto::Hash,
        history_hash: crypto::Hash,
    ) -> SchemaView
        recommends
            self.wallets.contains_key(key),
            amount <= self.wallets[key].balance,
    {
        self.set_balance(
            key,
            (self.wallets[key].balance - amount) as nat,
            transaction,
            history_hash,
        )
    }

    /// The ledger after a wallet was created by `transaction`.
    pub open spec fn create_wallet(
        self,
        name: Seq<char>,
        pub_keys: Seq<PublicKey>,
        quorum: nat,
        transaction: crypto::Hash,
        history_hash: crypto::Hash,
    ) -> SchemaView {
        let key = wallet_key(name);
        let history = self.history(key).push(transaction);
        let wallet = WalletView {
            name,
            pub_keys,
            quorum,
            balance: INITIAL_BALANCE as nat,
            history_len: history.len(),
            history_hash,
        };
        SchemaView {
            wallets: self.wallets.insert(key, wallet),
            histories: self.histories.insert(key, history),
            ..self
        }
    }

    /// The ledger after a proposal with one approval was stored.
    pub open spec fn create_transfer_proposal(
        self,
        from: Seq<char>,
        to: Seq<char>,
        amount: u64,
        seed: u64,
    ) -> SchemaView {
        let proposal = TransferProposalView { from, to, amount, seed, signs: 1 };
        SchemaView { proposals: self.proposals.insert(proposal.key(), proposal), ..self }
    }

    /// The ledger after `proposal` was stored again with one more approval.
    pub open spec fn increase_proposal_signs(self, proposal: TransferProposalView) -> SchemaView {
        SchemaView {
            proposals: self.proposals.insert(proposal.key(), proposal.increase_signs()),
            ..self
        }
    }
}

/// Whether `entries` lists the contents of `map`: every key of the map once,
/// each with the value stored under it, and nothing else.
pub open spec fn lists<V>(entries: Seq<(Seq<u8>, V)>, map: Map<Seq<u8>, V>) -> bool {
    &&& forall|i: int|
        0 <= i < entries.len() ==> map.contains_key((#[trigger] entries[i]).0) && map[entries[i].0]
            == entries[i].1
    &&& forall|i: int, j: int| 0 <= i < j < entries.len() ==> entries[i].0 != entries[j].0
    &&& forall|k: Seq<u8>| #[trigger]
        map.contains_key(k) ==> exists|i: int| 0 <= i < entries.len() && entries[i].0 == k
}

/// A wallet together with its history.
#[derive(Debug)]
struct Account {
    wallet: Wallet,
    history: Vec<crypto::Hash>,
}

/// The ledger.
#[derive(Debug)]
pub struct Schema {
    accounts: Table<Account>,
    proposals: Table<TransferProposal>,
}

impl View for Schema {
    type V = SchemaView;

    closed spec fn view(&self) -> SchemaView {
        SchemaView {
            wallets: Map::new(
                |k: Seq<u8>| self.accounts.map().contains_key(k),
                |k: Seq<u8>| self.accounts.map()[k].wallet@,
            ),
            histories: Map::new(
                |k: Seq<u8>| self.accounts.map().contains_key(k),
                |k: Seq<u8>| self.accounts.map()[k].history@,
            ),
            proposals: Map::new(
                |k: Seq<u8>| self.proposals.map().contains_key(k),
                |k: Seq<u8>| self.proposals.map()[k]@,
            ),
        }
    }
}

impl Schema {
    /// The representation invariant of the two tables.
    pub closed spec fn inv(&self) -> bool {
        self.accounts.wf() && self.proposals.wf()
    }

    /// Whether this is a ledger as the operations of this type produce it.
    pub open spec fn wf(&self) -> bool {
        self.inv() && self@.consistent()
    }

    /// Creates an empty ledger.
    pub fn new() -> (r: Schema)
        ensures
            r.wf(),
            r@ == SchemaView::empty(),
    {
        let r = Schema { accounts: Table::new(), proposals: Table::new() };
        proof {
            assert(r@.wallets =~= Map::empty());
            assert(r@.histories =~= Map::empty());
            assert(r@.proposals =~= Map::empty());
        }
        r
    }

    /// Returns the wallet stored under the digest `hash` of its name.
    pub fn wallet(&self, hash: &crypto::Hash) -> (r: Option<Wallet>)
        requires
            self.wf(),
        ensures
            r is Some == self@.wallets.contains_key(hash@),
            r is Some ==> r->Some_0@ == self@.wallets[hash@],
    {
        match self.accounts.get(hash) {
            Some(account) => Some(account.wallet.clone()),
            None => None,
        }
    }

    /// Returns the history of the wallet stored under `hash`, oldest entry
    /// first.  It is empty if there is no such wallet.
    pub fn wallet_history(&self, hash: &crypto::Hash) -> (r: Vec<crypto::Hash>)
        requires
            self.wf(),
        ensures
            r@ == self@.history(hash@),
    {
        let mut out: Vec<crypto::Hash> = Vec::new();
        match self.accounts.get(hash) {
            Some(account) => {
                let mut i: usize = 0;
                while i < account.history.len()
                    invariant
                        i <= account.history.len(),
                        out@ == account.history@.subrange(0, i as int),
                    decreases account.history.len() - i,
                {
                    out.push(account.history[i]);
                    assert(out@ =~= account.history@.subrange(0, i + 1));
                    i += 1;
                }
                assert(out@ =~= account.history@);
            },
            None => {},
        }
        out
    }

    /// Returns all wallets, each with the key under which it is stored.
    pub fn wallets(&self) -> (r: Vec<(crypto::Hash, Wallet)>)
        requires
            self.wf(),
        ensures
            lists(r@.map_values(|e: (crypto::Hash, Wallet)| (e.0@, e.1@)), self@.wallets),
    {
        let mut out: Vec<(crypto::Hash, Wallet)> = Vec::new();
        let ghost listed = |e: (crypto::Hash, Wallet)| (e.0@, e.1@);
        let mut i: usize = 0;
        while i < self.accounts.len()
            invariant
                self.wf(),
                i <= self.accounts.keys().len(),
                out@.len() == i,
                forall|j: int|
                    0 <= j < i ==> (#[trigger] out@[j]).0 == self.accounts.keys()[j]
                        && out@[j].1@ == self@.wallets[out@[j].0@],
            decreases self.accounts.keys().len() - i,
        {
            let key = self.accounts.key_at(i);
            let wallet = self.accounts.value_at(i).wallet.clone();
            proof {
                self.accounts.lemma_keys();
            }
            out.push((key, wallet));
            i += 1;
        }
        proof {
            self.accounts.lemma_keys();
            let entries = out@.map_values(listed);
            assert forall|k: Seq<u8>| #[trigger] self@.wallets.contains_key(k) implies exists|
                j: int,
            |
                0 <= j < entries.len() && entries[j].0 == k by {
                let j = choose|j: int|
                    0 <= j < self.accounts.keys().len() && self.accounts.keys()[j]@ == k;
                assert(entries[j].0 == k);
            }
        }
        out
    }

    /// Returns all transfer proposals, each with the key under which it is
    /// stored.
    pub fn transfer_proposals(&self) -> (r: Vec<(crypto::Hash, TransferProposal)>)
        requires
            self.wf(),
        ensures
            lists(
                r@.map_values(|e: (crypto::Hash, TransferProposal)| (e.0@, e.1@)),
                self@.proposals,
            ),
    {
        let mut out: Vec<(crypto::Hash, TransferProposal)> = Vec::new();
        let ghost listed = |e: (crypto::Hash, TransferProposal)| (e.0@, e.1@);
        let mut i: usize = 0;
        while i < self.proposals.len()
            invariant
                self.wf(),
                i <= self.proposals.keys().len(),
                out@.len() == i,
                forall|j: int|
                    0 <= j < i ==> (#[trigger] out@[j]).0 == self.proposals.keys()[j]
                        && out@[j].1@ == self@.proposals[out@[j].0@],
            decreases self.proposals.keys().len() - i,
        {
            let key = self.proposals.key_at(i);
            let proposal = self.proposals.value_at(i).clone();
            proof {
                self.proposals.lemma_keys();
            }
            out.push((key, proposal));
            i += 1;
        }
        proof {
            self.proposals.lemma_keys();
            let entries = out@.map_values(listed);
            assert forall|k: Seq<u8>| #[trigger] self@.proposals.contains_key(k) implies exists|
                j: int,
            |
                0 <= j < entries.len() && entries[j].0 == k by {
                let j = choose|j: int|
                    0 <= j < self.proposals.keys().len() && self.proposals.keys()[j]@ == k;
                assert(entries[j].0 == k);
            }
        }
        out
    }

    /// Returns the proposal stored under the digest `hash`.
    pub fn transfer_proposal(&self, hash: &crypto::Hash) -> (r: Option<TransferProposal>)
        requires
            self.wf(),
        ensures
            r is Some == self@.proposals.contains_key(hash@),
            r is Some ==> r->Some_0@ == self@.proposals[hash@],
    {
        match self.proposals.get(hash) {
            Some(proposal) => Some(proposal.clone()),
            None => None,
        }
    }

    /// Appends `transaction` to the history of `wallet` and stores the wallet
    /// with the new `balance`.
    fn update_balance(
        &mut self,
        wallet: Wallet,
        balance: u64,
        transaction: &crypto::Hash,
        history_hash: &crypto::Hash,
    )
        requires
            old(self).wf(),
            old(self)@.holds(wallet@),
        ensures
            final(self).wf(),
            final(self)@ == old(self)@.set_balance(
                wallet@.key(),
                balance as nat,
                *transaction,
                *history_hash,
            ),
    {
        let key = crypto::hash(wallet.name.as_str().as_bytes());
        match self.accounts.remove(&key) {
            Some(account) => {
                let mut history = account.history;
                assert(history@ == old(self)@.histories[key@]);
                history.push(*transaction);
                assert(old(self)@.wallets.contains_key(key@));
                assert(wallet@.history_len + 1 == history.len() <= usize::MAX);
                let wallet = wallet.set_balance(balance, history_hash);
                self.accounts.put(key, Account { wallet, history });
            },
            None => {
                assert(false);
            },
        }
        proof {
            let model = old(self)@.set_balance(
                wallet@.key(),
                balance as nat,
                *transaction,
                *history_hash,
            );
            assert(self@.wallets =~= model.wallets);
            assert(self@.histories =~= model.histories);
            assert(self@.proposals =~= model.proposals);
            assert(self@.wallets.dom() =~= self@.histories.dom());
        }
    }

    /// Increases the balance of `wallet` by `amount` and appends
    /// `transaction` to its history.
    ///
    /// `wallet` is the wallet as this ledger holds it, and `history_hash`
    /// becomes the digest recorded for its history.
    pub fn increase_wallet_balance(
        &mut self,
        wallet: Wallet,
        amount: u64,
        transaction: &crypto::Hash,
        history_hash: &crypto::Hash,
    )
        requires
            old(self).wf(),
            old(self)@.holds(wallet@),
            wallet.balance + amount <= u64::MAX,
        ensures
            final(self).wf(),
            final(self)@ == old(self)@.increase_wallet_balance(
                wallet@.key(),
                amount as nat,
                *transaction,
                *history_hash,
            ),
    {
        let balance = wallet.balance + amount;
        self.update_balance(wallet, balance, transaction, history_hash);
    }

    /// Decreases the balance of `wallet` by `amount` and appends
    /// `transaction` to its history.
    ///
    /// `wallet` is the wallet as this ledger holds it, and `history_hash`
    /// becomes the digest recorded for its history.
    pub fn decrease_wallet_balance(
        &mut self,
        wallet: Wallet,
        amount: u64,
        transaction: &crypto::Hash,
        history_hash: &crypto::Hash,
    )
        requires
            old(self).wf(),
            old(self)@.holds(wallet@),
            amount <= wallet.balance,
        ensures
            final(self).wf(),
            final(self)@ == old(self)@.decrease_wallet_balance(
                wallet@.key(),
                amount as nat,
                *transaction,
                *history_hash,
            ),
    {
        let balance = wallet.balance - amount;
        self.update_balance(wallet, balance, transaction, history_hash);
    }

    /// Creates a wallet with the initial balance, appends `transaction` to
    /// its history, and returns the wallet as it is stored.
    ///
    /// The history is that of the name: it is empty for a name that never
    /// had a wallet, so that `transaction` becomes its first record.
    pub fn create_wallet(
        &mut self,
        name: &String,
        keys: &Vec<PublicKey>,
        quorum: u32,
        transaction: &crypto::Hash,
        history_hash: &crypto::Hash,
    ) -> (r: Wallet)
        requires
            old(self).wf(),
            1 <= quorum <= keys@.len(),
        ensures
            final(self).wf(),
            final(self)@ == old(self)@.create_wallet(
                name@,
                keys@,
                quorum as nat,
                *transaction,
                *history_hash,
            ),
            r@ == final(self)@.wallets[wallet_key(name@)],
    {
        let key = crypto::hash(name.as_str().as_bytes());
        let mut history = match self.accounts.remove(&key) {
            Some(account) => account.history,
            None => Vec::new(),
        };
        history.push(*transaction);
        let history_len = history.len() as u64;
        let wallet = Wallet::new(
            name.as_str(),
            copy_keys(keys),
            quorum,
            INITIAL_BALANCE,
            history_len,
            history_hash,
        );
        let created = wallet.clone();
        self.accounts.put(key, Account { wallet, history });
        proof {
            let model = old(self)@.create_wallet(
                name@,
                keys@,
                quorum as nat,
                *transaction,
                *history_hash,
            );
            assert(self@.wallets =~= model.wallets);
            assert(self@.histories =~= model.histories);
            assert(self@.proposals =~= model.proposals);
            assert(self@.wallets.dom() =~= self@.histories.dom());
        }
        created
    }

    /// Stores a new transfer proposal with one approval.
    pub fn create_transfer_proposal(&mut self, from: &String, to: &String, amount: u64, seed: u64)
        requires
            old(self).wf(),
        ensures
            final(self).wf(),
            final(self)@ == old(self)@.create_transfer_proposal(from@, to@, amount, seed),
    {
        let transfer_proposal = TransferProposal::new(from.as_str(), to.as_str(), amount, seed, 1);
        self.put_proposal(transfer_proposal);
    }

    /// Stores `transfer_proposal` again with one more approval.
    pub fn increase_proposal_signs(&mut self, transfer_proposal: TransferProposal)
        requires
            old(self).wf(),
            transfer_proposal.signs < u32::MAX,
        ensures
            final(self).wf(),
            final(self)@ == old(self)@.increase_proposal_signs(transfer_proposal@),
    {
        let transfer_proposal = transfer_proposal.increase_signs();
        self.put_proposal(transfer_proposal);
    }

    /// Stores `proposal` under its digest.
    fn put_proposal(&mut self, proposal: TransferProposal)
        requires
            old(self).wf(),
            proposal.signs >= 1,
        ensures
            final(self).wf(),
            final(self)@ == (SchemaView {
                proposals: old(self)@.proposals.insert(proposal@.key(), proposal@),
                ..old(self)@
            }),
    {
        let key = proposal.hash();
        self.proposals.put(key, proposal);
        proof {
            assert(self@.wallets =~= old(self)@.wallets);
            assert(self@.histories =~= old(self)@.histories);
            assert(self@.proposals =~= old(self)@.proposals.insert(proposal@.key(), proposal@));
        }
    }
}

} // verus!
