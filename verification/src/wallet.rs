//! Wallets.

use vstd::prelude::*;
use vstd::utf8::encode_utf8;
use crate::crypto;
use crate::crypto::{sha256, PublicKey};

verus! {

/// The key under which the wallet called `name` is stored: the digest of the
/// UTF-8 encoding of its name.
pub open spec fn wallet_key(name: Seq<char>) -> Seq<u8> {
    sha256(encode_utf8(name))
}

/// Mathematical model of a [`Wallet`].
pub struct WalletView {
    pub name: Seq<char>,
    pub pub_keys: Seq<PublicKey>,
    pub quorum: nat,
    pub balance: nat,
    pub history_len: nat,
    pub history_hash: crypto::Hash,
}

impl WalletView {
    /// The key under which this wallet is stored.
    pub open spec fn key(self) -> Seq<u8> {
        wallet_key(self.name)
    }

    /// Whether `key` is one of the keys that may approve transfers from this
    /// wallet.
    pub open spec fn authorizes(self, key: PublicKey) -> bool {
        self.pub_keys.contains(key)
    }

    /// Whether the quorum lies between one and the number of keys.
    pub open spec fn quorum_is_valid(self) -> bool {
        1 <= self.quorum <= self.pub_keys.len()
    }

    /// This wallet after a change of balance: the balance and the digest of
    /// the history are replaced, and the history has grown by one entry.
    pub open spec fn set_balance(self, balance: nat, history_hash: crypto::Hash) -> WalletView {
        WalletView { balance, history_len: self.history_len + 1, history_hash, ..self }
    }
}

/// Wallet information stored in the ledger.
#[derive(Debug)]
pub struct Wallet {
    /// Name of the wallet.
    pub name: String,
    /// Keys that may approve transfers from the wallet.
    pub pub_keys: Vec<PublicKey>,
    /// Number of approvals a transfer from the wallet needs.
    pub quorum: u32,
    /// Current balance of the wallet.
    pub balance: u64,
    /// Length of the transactions history.
    pub history_len: u64,
    /// Digest of the transactions history.
    pub history_hash: crypto::Hash,
}

impl View for Wallet {
    type V = WalletView;

    open spec fn view(&self) -> WalletView {
        WalletView {
            name: self.name@,
            pub_keys: self.pub_keys@,
            quorum: self.quorum as nat,
            balance: self.balance as nat,
            history_len: self.history_len as nat,
            history_hash: self.history_hash,
        }
    }
}

/// Copies a list of keys.
pub(crate) fn copy_keys(keys: &Vec<PublicKey>) -> (r: Vec<PublicKey>)
    ensures
        r@ == keys@,
{
    let mut out: Vec<PublicKey> = Vec::new();
    let mut i: usize = 0;
    while i < keys.len()
        invariant
            i <= keys.len(),
            out@ == keys@.subrange(0, i as int),
        decreases keys.len() - i,
    {
        out.push(keys[i]);
        assert(out@ =~= keys@.subrange(0, i + 1));
        i += 1;
    }
    assert(out@ =~= keys@);
    out
}

impl Clone for Wallet {
    fn clone(&self) -> (r: Wallet)
        ensures
            r@ == self@,
    {
        Wallet {
            name: self.name.clone(),
            pub_keys: copy_keys(&self.pub_keys),
            quorum: self.quorum,
            balance: self.balance,
            history_len: self.history_len,
            history_hash: self.history_hash,
        }
    }
}

impl Wallet {
    /// Creates a wallet with the given fields.
    pub fn new(
        name: &str,
        pub_keys: Vec<PublicKey>,
        quorum: u32,
        balance: u64,
        history_len: u64,
        history_hash: &crypto::Hash,
    ) -> (r: Wallet)
        ensures
            r@ == (WalletView {
                name: name@,
                pub_keys: pub_keys@,
                quorum: quorum as nat,
                balance: balance as nat,
                history_len: history_len as nat,
                history_hash: *history_hash,
            }),
    {
        Wallet {
            name: name.to_owned(),
            pub_keys,
            quorum,
            balance,
            history_len,
            history_hash: *history_hash,
        }
    }

    /// Returns this wallet with an updated balance, as it stands after one
    /// more entry of its history.
    pub fn set_balance(self, balance: u64, history_hash: &crypto::Hash) -> (r: Wallet)
        requires
            self.history_len < u64::MAX,
        ensures
            r@ == self@.set_balance(balance as nat, *history_hash),
    {
        Wallet::new(
            self.name.as_str(),
            self.pub_keys,
            self.quorum,
            balance,
            self.history_len + 1,
            history_hash,
        )
    }

    /// Tells whether `key` is one of the keys of this wallet.
    pub fn is_authorized(&self, key: &PublicKey) -> (r: bool)
        ensures
            r == self@.authorizes(*key),
    {
        let mut i: usize = 0;
        while i < self.pub_keys.len()
            invariant
                i <= self.pub_keys.len(),
                forall|j: int| 0 <= j < i ==> self.pub_keys@[j] != *key,
            decreases self.pub_keys.len() - i,
        {
            proof {
                key.lemma_view(self.pub_keys@[i as int]);
            }
            if self.pub_keys[i] == *key {
                return true;
            }
            i += 1;
        }
        false
    }
}

} // verus!
