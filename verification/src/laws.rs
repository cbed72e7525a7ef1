//! Laws of the ledger, stated over its mathematical model and proved.

use vstd::prelude::*;
use vstd::bytes::{lemma_auto_spec_u64_to_from_le_bytes, spec_u64_to_le_bytes};
use vstd::utf8::{encode_utf8, encode_utf8_decode_utf8};
use crate::crypto;
use crate::crypto::{sha256, PublicKey};
use crate::schema::SchemaView;
use crate::transactions::{Error, TransactionContext, TransferView, WalletTransactions};
use crate::transferproposal::{hash_input, name_input, proposal_key, TransferProposalView};
use crate::wallet::wallet_key;

verus! {

/// Whether the UTF-8 encoding of `name` has a length that fits 64 bits, as
/// that of every `String` does.
pub open spec fn fits_length(name: Seq<char>) -> bool {
    encode_utf8(name).len() <= u64::MAX
}

/// A name behind its length can be read off the front of a byte string in
/// one way only.
pub proof fn lemma_name_input_prefix(a: Seq<char>, x: Seq<u8>, b: Seq<char>, y: Seq<u8>)
    requires
        fits_length(a),
        fits_length(b),
        name_input(a) + x == name_input(b) + y,
    ensures
        a == b,
        x == y,
{
    lemma_auto_spec_u64_to_from_le_bytes();
    let la = encode_utf8(a).len() as u64;
    let lb = encode_utf8(b).len() as u64;
    let whole = name_input(a) + x;
    assert(whole.subrange(0, 8) =~= spec_u64_to_le_bytes(la));
    assert(whole.subrange(0, 8) =~= spec_u64_to_le_bytes(lb));
    assert(la == lb);
    let n = encode_utf8(a).len() as int;
    assert(whole.subrange(8, 8 + n) =~= encode_utf8(a));
    assert(whole.subrange(8, 8 + n) =~= encode_utf8(b));
    encode_utf8_decode_utf8(a);
    encode_utf8_decode_utf8(b);
    assert(x =~= whole.subrange(8 + n, whole.len() as int));
    assert(y =~= whole.subrange(8 + n, whole.len() as int));
}

/// Two transfers are hashed from the same bytes exactly if they agree in
/// sender, receiver, amount and seed.
pub proof fn lemma_hash_input_equal(
    from1: Seq<char>,
    to1: Seq<char>,
    amount1: u64,
    seed1: u64,
    from2: Seq<char>,
    to2: Seq<char>,
    amount2: u64,
    seed2: u64,
)
    requires
        fits_length(from1),
        fits_length(to1),
        fits_length(from2),
        fits_length(to2),
    ensures
        hash_input(from1, to1, amount1, seed1) == hash_input(from2, to2, amount2, seed2) <==> (from1
            == from2 && to1 == to2 && amount1 == amount2 && seed1 == seed2),
{
    lemma_auto_spec_u64_to_from_le_bytes();
    let h1 = hash_input(from1, to1, amount1, seed1);
    let h2 = hash_input(from2, to2, amount2, seed2);
    if h1 == h2 {
        let numbers1 = spec_u64_to_le_bytes(amount1) + spec_u64_to_le_bytes(seed1);
        let numbers2 = spec_u64_to_le_bytes(amount2) + spec_u64_to_le_bytes(seed2);
        let rest1 = name_input(to1) + numbers1;
        let rest2 = name_input(to2) + numbers2;
        assert(h1 =~= name_input(from1) + rest1);
        assert(h2 =~= name_input(from2) + rest2);
        lemma_name_input_prefix(from1, rest1, from2, rest2);
        lemma_name_input_prefix(to1, numbers1, to2, numbers2);
        assert(numbers1.subrange(0, 8) =~= spec_u64_to_le_bytes(amount1));
        assert(numbers2.subrange(0, 8) =~= spec_u64_to_le_bytes(amount2));
        assert(numbers1.subrange(8, 16) =~= spec_u64_to_le_bytes(seed1));
        assert(numbers2.subrange(8, 16) =~= spec_u64_to_le_bytes(seed2));
    }
}

/// The key of a proposal is determined by sender, receiver, amount and seed:
/// proposals that agree in these have the same key, however many approvals
/// each has.
pub proof fn lemma_proposal_key_ignores_signs(a: TransferProposalView, b: TransferProposalView)
    requires
        a.from == b.from,
        a.to == b.to,
        a.amount == b.amount,
        a.seed == b.seed,
    ensures
        a.key() == b.key(),
        a.key() == proposal_key(a.from, a.to, a.amount, a.seed),
        a.increase_signs().key() == a.key(),
{
}

/// Transfers that differ in any of sender, receiver, amount and seed have
/// different keys, unless the two byte strings hashed are a collision of
/// SHA-256.
pub proof fn lemma_proposal_key_differs(
    from1: Seq<char>,
    to1: Seq<char>,
    amount1: u64,
    seed1: u64,
    from2: Seq<char>,
    to2: Seq<char>,
    amount2: u64,
    seed2: u64,
)
    requires
        fits_length(from1),
        fits_length(to1),
        fits_length(from2),
        fits_length(to2),
        from1 != from2 || to1 != to2 || amount1 != amount2 || seed1 != seed2,
        !collision(
            hash_input(from1, to1, amount1, seed1),
            hash_input(from2, to2, amount2, seed2),
        ),
    ensures
        proposal_key(from1, to1, amount1, seed1) != proposal_key(from2, to2, amount2, seed2),
{
    lemma_hash_input_equal(from1, to1, amount1, seed1, from2, to2, amount2, seed2);
}

/// Whether `a` and `b` are different byte strings with the same digest.
pub open spec fn collision(a: Seq<u8>, b: Seq<u8>) -> bool {
    a != b && sha256(a) == sha256(b)
}

/// A change of balance keeps the ledger consistent: the history grows by the
/// entry that the wallet counts.
pub proof fn lemma_set_balance_consistent(
    s: SchemaView,
    key: Seq<u8>,
    balance: nat,
    transaction: crypto::Hash,
    history_hash: crypto::Hash,
)
    requires
        s.consistent(),
        s.wallets.contains_key(key),
    ensures
        s.set_balance(key, balance, transaction, history_hash).consistent(),
{
    let t = s.set_balance(key, balance, transaction, history_hash);
    assert(t.wallets.dom() =~= t.histories.dom());
    assert forall|k: Seq<u8>| #[trigger] t.wallets.contains_key(k) implies {
        &&& t.wallets[k].key() == k
        &&& t.wallets[k].history_len == t.histories[k].len()
        &&& t.wallets[k].quorum_is_valid()
    } by {
        assert(s.wallets.contains_key(k));
    }
}

/// Creating a wallet with a valid quorum keeps the ledger consistent.
pub proof fn lemma_create_wallet_consistent(
    s: SchemaView,
    name: Seq<char>,
    pub_keys: Seq<PublicKey>,
    quorum: nat,
    transaction: crypto::Hash,
    history_hash: crypto::Hash,
)
    requires
        s.consistent(),
        1 <= quorum <= pub_keys.len(),
    ensures
        s.create_wallet(name, pub_keys, quorum, transaction, history_hash).consistent(),
{
    let t = s.create_wallet(name, pub_keys, quorum, transaction, history_hash);
    assert(t.wallets.dom() =~= t.histories.dom());
    assert forall|k: Seq<u8>| #[trigger] t.wallets.contains_key(k) implies {
        &&& t.wallets[k].key() == k
        &&& t.wallets[k].history_len == t.histories[k].len()
        &&& t.wallets[k].quorum_is_valid()
    } by {
        if k != wallet_key(name) {
            assert(s.wallets.contains_key(k));
        }
    }
}

/// Counting an approval keeps the ledger consistent and touches no wallet.
pub proof fn lemma_record_approval(tx: TransferView, s: SchemaView)
    requires
        s.consistent(),
    ensures
        tx.record_approval(s).consistent(),
        tx.record_approval(s).wallets == s.wallets,
        tx.record_approval(s).histories == s.histories,
        tx.record_approval(s).proposals.contains_key(tx.key()),
        tx.record_approval(s).proposals[tx.key()] == tx.proposal(tx.signs_after(s)),
{
    let t = tx.record_approval(s);
    assert forall|k: Seq<u8>| #[trigger] t.proposals.contains_key(k) implies {
        &&& t.proposals[k].key() == k
        &&& t.proposals[k].signs >= 1
    } by {
        if k != tx.key() {
            assert(s.proposals.contains_key(k));
        }
    }
}

/// Every operation keeps the ledger consistent.  In particular, after every
/// operation each wallet records exactly the length of its history.
pub proof fn lemma_operation_keeps_consistency(
    op: WalletTransactions,
    s: SchemaView,
    context: TransactionContext,
)
    requires
        s.consistent(),
    ensures
        op.state_after(s, context).consistent(),
        forall|k: Seq<u8>| #[trigger]
            op.state_after(s, context).wallets.contains_key(k) ==> op.state_after(
                s,
                context,
            ).wallets[k].history_len == op.state_after(s, context).history(k).len(),
{
    match op {
        WalletTransactions::Transfer(tx) => {
            lemma_transfer_keeps_consistency(tx@, s, context);
        },
        WalletTransactions::Issue(tx) => {
            if tx@.result(s) is Ok {
                lemma_set_balance_consistent(
                    s,
                    tx@.to_key(),
                    s.wallets[tx@.to_key()].balance + tx@.amount as nat,
                    context.tx_hash,
                    context.receiver_history_hash,
                );
            }
        },
        WalletTransactions::CreateWallet(tx) => {
            if tx@.result(s, context.author) is Ok {
                lemma_create_wallet_consistent(
                    s,
                    tx@.name,
                    tx@.pub_keys,
                    tx@.quorum,
                    context.tx_hash,
                    context.receiver_history_hash,
                );
            }
        },
    }
    let t = op.state_after(s, context);
    assert forall|k: Seq<u8>| #[trigger] t.wallets.contains_key(k) implies t.wallets[k].history_len
        == t.history(k).len() by {
        assert(t.histories.contains_key(k));
    }
}

/// A transfer keeps the ledger consistent.
pub proof fn lemma_transfer_keeps_consistency(
    tx: TransferView,
    s: SchemaView,
    context: TransactionContext,
)
    requires
        s.consistent(),
    ensures
        tx.state_after(s, context).consistent(),
{
    if tx.result(s, context.author) is Ok {
        lemma_record_approval(tx, s);
        if tx.executes(s, context.author) {
            let s1 = tx.record_approval(s);
            let balance = (s1.wallets[tx.from_key()].balance - tx.amount) as nat;
            lemma_set_balance_consistent(
                s1,
                tx.from_key(),
                balance,
                context.tx_hash,
                context.sender_history_hash,
            );
            let s2 = tx.debited(s, context);
            assert(s2.wallets.contains_key(tx.to_key()));
            lemma_set_balance_consistent(
                s2,
                tx.to_key(),
                s2.wallets[tx.to_key()].balance + tx.amount as nat,
                context.tx_hash,
                context.receiver_history_hash,
            );
        }
    }
}

/// A rejected operation changes nothing.
pub proof fn lemma_rejection_changes_nothing(
    op: WalletTransactions,
    s: SchemaView,
    context: TransactionContext,
)
    requires
        op.result(s, context.author) is Err,
    ensures
        op.state_after(s, context) == s,
{
}

/// A transfer is rejected for want of funds exactly if it has passed the
/// checks on its parties, its quorum is complete with this submission, and
/// the sender holds less than the amount; the ledger then stays as it was.
/// A transfer that moves funds never takes more than the sender holds.
pub proof fn lemma_overdraft_is_rejected(tx: TransferView, s: SchemaView, context: TransactionContext)
    ensures
        tx.result(s, context.author) == Err::<(), Error>(Error::InsufficientCurrencyAmount) <==> (
        tx.reaches_quorum(s, context.author) && s.wallets[tx.from_key()].balance < tx.amount),
        tx.result(s, context.author) is Err ==> tx.state_after(s, context) == s,
        tx.executes(s, context.author) ==> tx.amount <= s.wallets[tx.from_key()].balance
            && tx.debited(s, context).wallets[tx.from_key()].balance + tx.amount
            == s.wallets[tx.from_key()].balance,
{
}

/// The number of approvals recorded for a transfer; zero if there is no
/// proposal for it.
pub open spec fn approvals(tx: TransferView, s: SchemaView) -> nat {
    if s.proposals.contains_key(tx.key()) {
        s.proposals[tx.key()].signs
    } else {
        0
    }
}

/// What one submission of a transfer does.
///
/// An accepted submission leaves the record of this transfer with one
/// approval more than were recorded, and keeps the sender's quorum.
/// It moves the funds exactly if the approvals then equal the quorum;
/// otherwise no wallet and no history changes.
pub proof fn lemma_submission(tx: TransferView, s: SchemaView, context: TransactionContext)
    requires
        s.consistent(),
    ensures
        tx.state_after(s, context).consistent(),
        tx.result(s, context.author) is Err ==> tx.state_after(s, context) == s,
        tx.result(s, context.author) is Ok ==> {
            &&& approvals(tx, tx.state_after(s, context)) == approvals(tx, s) + 1
            &&& tx.state_after(s, context).proposals[tx.key()] == tx.proposal(approvals(tx, s) + 1)
            &&& tx.state_after(s, context).wallets.contains_key(tx.from_key())
            &&& tx.state_after(s, context).wallets[tx.from_key()].quorum
                == s.wallets[tx.from_key()].quorum
        },
        tx.executes(s, context.author) <==> (tx.result(s, context.author) is Ok && approvals(tx, s)
            + 1 == s.wallets[tx.from_key()].quorum),
        !tx.executes(s, context.author) ==> {
            &&& tx.state_after(s, context).wallets == s.wallets
            &&& tx.state_after(s, context).histories == s.histories
        },
{
    lemma_transfer_keeps_consistency(tx, s, context);
    if tx.result(s, context.author) is Ok {
        lemma_record_approval(tx, s);
    }
}

/// What moving the funds does to the two wallets.
///
/// Where sender and receiver are stored under different keys, the amount
/// leaves the one and reaches the other, and the transaction is appended to
/// each history, which the wallet counts.  Where both names have the same
/// digest they name one wallet: its balance stays, and the transaction is
/// appended twice, once for the debit and once for the credit.
pub proof fn lemma_execution_moves_funds(tx: TransferView, s: SchemaView, context: TransactionContext)
    requires
        s.consistent(),
        tx.executes(s, context.author),
    ensures
        ({
            let t = tx.state_after(s, context);
            let from = tx.from_key();
            let to = tx.to_key();
            if from != to {
                &&& t.wallets[from].balance + tx.amount == s.wallets[from].balance
                &&& t.wallets[to].balance == s.wallets[to].balance + tx.amount
                &&& t.history(from) == s.history(from).push(context.tx_hash)
                &&& t.history(to) == s.history(to).push(context.tx_hash)
                &&& t.wallets[from].history_len == s.wallets[from].history_len + 1
                &&& t.wallets[to].history_len == s.wallets[to].history_len + 1
                &&& t.wallets[from].history_hash == context.sender_history_hash
                &&& t.wallets[to].history_hash == context.receiver_history_hash
            } else {
                &&& t.wallets[to].balance == s.wallets[to].balance
                &&& t.history(to) == s.history(to).push(context.tx_hash).push(context.tx_hash)
                &&& t.wallets[to].history_len == s.wallets[to].history_len + 2
                &&& t.wallets[to].history_hash == context.receiver_history_hash
            }
        }),
        tx.state_after(s, context).wallets[tx.from_key()].history_len == tx.state_after(
            s,
            context,
        ).history(tx.from_key()).len(),
        tx.state_after(s, context).wallets[tx.to_key()].history_len == tx.state_after(
            s,
            context,
        ).history(tx.to_key()).len(),
{
    lemma_record_approval(tx, s);
    lemma_transfer_keeps_consistency(tx, s, context);
    assert(tx.state_after(s, context).wallets.contains_key(tx.from_key()));
    assert(tx.state_after(s, context).wallets.contains_key(tx.to_key()));
}

/// What a transfer can and cannot change, whatever it is answered.
///
/// No wallet appears or disappears, and no wallet changes its name, its
/// keys or its quorum.  Only the wallets of the sender and of the receiver
/// can change at all.  The sender's balance stays or falls by the amount,
/// and falls only if it covers the amount; what the two wallets hold
/// together stays the same.
pub proof fn lemma_transfer_conserves(tx: TransferView, s: SchemaView, context: TransactionContext)
    ensures
        ({
            let t = tx.state_after(s, context);
            let from = tx.from_key();
            let to = tx.to_key();
            &&& t.wallets.dom() == s.wallets.dom()
            &&& forall|k: Seq<u8>| #[trigger]
                s.wallets.contains_key(k) ==> {
                    &&& t.wallets[k].name == s.wallets[k].name
                    &&& t.wallets[k].pub_keys == s.wallets[k].pub_keys
                    &&& t.wallets[k].quorum == s.wallets[k].quorum
                    &&& k != from && k != to ==> t.wallets[k] == s.wallets[k]
                }
            &&& forall|k: Seq<u8>|
                k != from && k != to ==> #[trigger] t.history(k) == s.history(k)
            &&& s.wallets.contains_key(from) ==> {
                ||| t.wallets[from].balance == s.wallets[from].balance
                ||| tx.amount <= s.wallets[from].balance && t.wallets[from].balance + tx.amount
                    == s.wallets[from].balance
            }
            &&& s.wallets.contains_key(from) && s.wallets.contains_key(to) && from != to
                ==> t.wallets[from].balance + t.wallets[to].balance == s.wallets[from].balance
                + s.wallets[to].balance
        }),
{
    if tx.executes(s, context.author) {
        assert(tx.state_after(s, context).wallets.dom() =~= s.wallets.dom());
    }
}

/// The ledger after the same transfer was submitted once for each of
/// `contexts`, in their order.
pub open spec fn after_submissions(
    tx: TransferView,
    s: SchemaView,
    contexts: Seq<TransactionContext>,
) -> SchemaView
    decreases contexts.len(),
{
    if contexts.len() == 0 {
        s
    } else {
        tx.state_after(after_submissions(tx, s, contexts.drop_last()), contexts.last())
    }
}

/// The number of those submissions that were accepted.
pub open spec fn accepted(tx: TransferView, s: SchemaView, contexts: Seq<TransactionContext>) -> nat
    decreases contexts.len(),
{
    if contexts.len() == 0 {
        0
    } else {
        let before = after_submissions(tx, s, contexts.drop_last());
        let earlier = accepted(tx, s, contexts.drop_last());
        if tx.result(before, contexts.last().author) is Ok {
            earlier + 1
        } else {
            earlier
        }
    }
}

/// The approvals recorded after a series of submissions of one transfer are
/// those recorded before plus the number of accepted submissions; the
/// sender's wallet stays, with its quorum.
pub proof fn lemma_submissions_are_counted(
    tx: TransferView,
    s: SchemaView,
    contexts: Seq<TransactionContext>,
)
    requires
        s.consistent(),
        s.wallets.contains_key(tx.from_key()),
    ensures
        after_submissions(tx, s, contexts).consistent(),
        after_submissions(tx, s, contexts).wallets.contains_key(tx.from_key()),
        after_submissions(tx, s, contexts).wallets[tx.from_key()].quorum
            == s.wallets[tx.from_key()].quorum,
        approvals(tx, after_submissions(tx, s, contexts)) == approvals(tx, s) + accepted(
            tx,
            s,
            contexts,
        ),
    decreases contexts.len(),
{
    if contexts.len() > 0 {
        lemma_submissions_are_counted(tx, s, contexts.drop_last());
        lemma_submission(tx, after_submissions(tx, s, contexts.drop_last()), contexts.last());
    }
}

/// The number of accepted submissions does not shrink as the series grows.
pub proof fn lemma_accepted_grows(
    tx: TransferView,
    s: SchemaView,
    contexts: Seq<TransactionContext>,
    i: int,
)
    requires
        0 <= i <= contexts.len(),
    ensures
        accepted(tx, s, contexts.take(i)) <= accepted(tx, s, contexts),
    decreases contexts.len(),
{
    if i < contexts.len() {
        assert(contexts.drop_last().take(i) =~= contexts.take(i));
        lemma_accepted_grows(tx, s, contexts.drop_last(), i);
    } else {
        assert(contexts.take(i) =~= contexts);
    }
}

/// The quorum law.
///
/// Let a transfer without recorded approvals be submitted several times, by
/// whatever authors, to a ledger that holds the sender's wallet with quorum
/// `q`.  Then submission number `i` moves the funds exactly if it is
/// accepted and is the `q`-th accepted one.  Every other submission leaves
/// all wallets and histories as they were.
pub proof fn lemma_quorum_law(
    tx: TransferView,
    s: SchemaView,
    contexts: Seq<TransactionContext>,
    i: int,
)
    requires
        s.consistent(),
        s.wallets.contains_key(tx.from_key()),
        approvals(tx, s) == 0,
        0 <= i < contexts.len(),
    ensures
        ({
            let before = after_submissions(tx, s, contexts.take(i));
            let after = after_submissions(tx, s, contexts.take(i + 1));
            let author = contexts[i].author;
            &&& after == tx.state_after(before, contexts[i])
            &&& tx.executes(before, author) <==> (tx.result(before, author) is Ok && accepted(
                tx,
                s,
                contexts.take(i),
            ) + 1 == s.wallets[tx.from_key()].quorum)
            &&& !tx.executes(before, author) ==> after.wallets == before.wallets && after.histories
                == before.histories
        }),
{
    let before = after_submissions(tx, s, contexts.take(i));
    assert(contexts.take(i + 1).drop_last() =~= contexts.take(i));
    assert(contexts.take(i + 1).last() == contexts[i]);
    lemma_submissions_are_counted(tx, s, contexts.take(i));
    lemma_submission(tx, before, contexts[i]);
}

/// The funds of one transfer move at most once: if submission number `i`
/// moves them, no later submission of the series does.
pub proof fn lemma_funds_move_once(
    tx: TransferView,
    s: SchemaView,
    contexts: Seq<TransactionContext>,
    i: int,
    j: int,
)
    requires
        s.consistent(),
        s.wallets.contains_key(tx.from_key()),
        0 <= i < j < contexts.len(),
        tx.executes(after_submissions(tx, s, contexts.take(i)), contexts[i].author),
    ensures
        !tx.executes(after_submissions(tx, s, contexts.take(j)), contexts[j].author),
{
    let before_i = after_submissions(tx, s, contexts.take(i));
    let before_j = after_submissions(tx, s, contexts.take(j));
    assert(contexts.take(i + 1).drop_last() =~= contexts.take(i));
    assert(contexts.take(i + 1).last() == contexts[i]);
    assert(contexts.take(j).take(i + 1) =~= contexts.take(i + 1));
    lemma_submissions_are_counted(tx, s, contexts.take(i));
    lemma_submissions_are_counted(tx, s, contexts.take(j));
    lemma_submission(tx, before_i, contexts[i]);
    lemma_submission(tx, before_j, contexts[j]);
    lemma_accepted_grows(tx, s, contexts.take(j), i + 1);
}

/// Submitting a transfer again once its approvals have reached the quorum
/// moves no funds: the submission is checked as any other, counted as one
/// more approval if it passes, and leaves all wallets and histories as they
/// were.
pub proof fn lemma_resubmission_moves_nothing(
    tx: TransferView,
    s: SchemaView,
    context: TransactionContext,
)
    requires
        s.consistent(),
        s.wallets.contains_key(tx.from_key()),
        approvals(tx, s) >= s.wallets[tx.from_key()].quorum,
    ensures
        !tx.executes(s, context.author),
        tx.result(s, context.author) == match tx.rejection(s, context.author) {
            Some(e) => Err::<(), Error>(e),
            None => Ok(()),
        },
        tx.state_after(s, context).wallets == s.wallets,
        tx.state_after(s, context).histories == s.histories,
        tx.result(s, context.author) is Ok ==> approvals(tx, tx.state_after(s, context))
            == approvals(tx, s) + 1,
{
    lemma_submission(tx, s, context);
}

/// The key of the wallet that an operation credits or creates.
pub open spec fn receiver_key(op: WalletTransactions) -> Seq<u8> {
    match op {
        WalletTransactions::Transfer(tx) => tx@.to_key(),
        WalletTransactions::Issue(tx) => tx@.to_key(),
        WalletTransactions::CreateWallet(tx) => tx@.key(),
    }
}

/// The histories announced for an operation are those that it leaves, and
/// the digests handed over with it are recorded for exactly these: the
/// receiver's wallet ends with the announced history and the receiver's
/// digest, and so does the sender's wallet at the moment it is debited.
/// A digest for which no history is announced is not looked at.
pub proof fn lemma_extended_histories(
    op: WalletTransactions,
    s: SchemaView,
    context: TransactionContext,
    other: crypto::Hash,
)
    requires
        s.consistent(),
    ensures
        match op.sender_history(s, context.author, context.tx_hash) {
            Some(h) => op matches WalletTransactions::Transfer(tx) && {
                &&& tx@.debited(s, context).history(tx@.from_key()) == h
                &&& tx@.debited(s, context).wallets[tx@.from_key()].history_hash
                    == context.sender_history_hash
            },
            None => op.state_after(s, context) == op.state_after(
                s,
                TransactionContext { sender_history_hash: other, ..context },
            ),
        },
        match op.receiver_history(s, context.author, context.tx_hash) {
            Some(h) => {
                &&& op.state_after(s, context).history(receiver_key(op)) == h
                &&& op.state_after(s, context).wallets[receiver_key(op)].history_hash
                    == context.receiver_history_hash
            },
            None => op.state_after(s, context) == op.state_after(
                s,
                TransactionContext { receiver_history_hash: other, ..context },
            ),
        },
{
    match op {
        WalletTransactions::Transfer(tx) => {
            if tx@.executes(s, context.author) {
                lemma_record_approval(tx@, s);
            }
        },
        _ => {},
    }
}

} // verus!
