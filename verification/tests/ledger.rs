//! Tests of the operations, called directly on a ledger.

use cryptocurrency_multisig::crypto;
use cryptocurrency_multisig::crypto::PublicKey;
use cryptocurrency_multisig::schema::Schema;
use cryptocurrency_multisig::transactions::{
    CreateWallet, Error, Issue, Transfer, TransactionContext, WalletTransactions,
};
use cryptocurrency_multisig::transferproposal::{proposal_hash, TransferProposal};
use cryptocurrency_multisig::wallet::Wallet;
use cryptocurrency_multisig::INITIAL_BALANCE;

fn key(n: u8) -> PublicKey {
    PublicKey::new([n; 32])
}

fn digest(n: u8) -> crypto::Hash {
    crypto::Hash::new([n; 32])
}

/// A context for the transaction number `n`, signed by `author`.
fn context(author: PublicKey, n: u8) -> TransactionContext {
    TransactionContext::new(author, digest(n), digest(n.wrapping_add(100)), digest(n.wrapping_add(200)))
}

fn wallet_of(schema: &Schema, name: &str) -> Wallet {
    schema.wallet(&crypto::hash(name.as_bytes())).unwrap()
}

fn balance_of(schema: &Schema, name: &str) -> u64 {
    wallet_of(schema, name).balance
}

fn create(schema: &mut Schema, name: &str, keys: Vec<PublicKey>, quorum: u32, n: u8) -> Result<(), Error> {
    let author = keys[0];
    let tx = CreateWallet { name: name.to_owned(), pub_keys: keys, quorum };
    tx.execute(&context(author, n), schema)
}

fn transfer(from: &str, to: &str, amount: u64, seed: u64) -> Transfer {
    Transfer { from: from.to_owned(), to: to.to_owned(), amount, seed }
}

/// A ledger with "alice" (keys 1, 2, 3, quorum as given) and "bob" (key 9).
fn alice_and_bob(quorum: u32) -> Schema {
    let mut schema = Schema::new();
    assert_eq!(create(&mut schema, "alice", vec![key(1), key(2), key(3)], quorum, 1), Ok(()));
    assert_eq!(create(&mut schema, "bob", vec![key(9)], 1, 2), Ok(()));
    schema
}

fn assert_lengths_agree(schema: &Schema, names: &[&str]) {
    for name in names {
        let hash = crypto::hash(name.as_bytes());
        if let Some(wallet) = schema.wallet(&hash) {
            assert_eq!(wallet.history_len, schema.wallet_history(&hash).len() as u64);
        } else {
            assert!(schema.wallet_history(&hash).is_empty());
        }
    }
}

#[test]
fn new_schema_holds_nothing() {
    let schema = Schema::new();
    let key = crypto::hash(b"alice");
    assert!(schema.wallet(&key).is_none());
    assert!(schema.wallet_history(&key).is_empty());
    assert!(schema.transfer_proposal(&key).is_none());
}

#[test]
fn initial_balance_is_one_hundred() {
    assert_eq!(INITIAL_BALANCE, 100);
}

#[test]
fn scenario_create_then_issue() {
    let mut schema = Schema::new();
    assert_eq!(create(&mut schema, "alice", vec![key(1)], 1, 1), Ok(()));
    assert_eq!(balance_of(&schema, "alice"), 100);

    let issue = Issue { to: "alice".to_owned(), amount: 50, seed: 0 };
    assert_eq!(issue.try_execute(&context(key(7), 2), &mut schema), Some(Ok(())));
    assert_eq!(balance_of(&schema, "alice"), 150);
}

#[test]
fn scenario_transfer_between_two_wallets() {
    let mut schema = Schema::new();
    assert_eq!(create(&mut schema, "alice", vec![key(1)], 1, 1), Ok(()));
    assert_eq!(create(&mut schema, "bob", vec![key(2)], 1, 2), Ok(()));
    assert_eq!(balance_of(&schema, "alice"), 100);
    assert_eq!(balance_of(&schema, "bob"), 100);

    let tx = transfer("alice", "bob", 10, 0);
    assert_eq!(tx.try_execute(&context(key(1), 3), &mut schema), Some(Ok(())));
    assert_eq!(balance_of(&schema, "alice"), 90);
    assert_eq!(balance_of(&schema, "bob"), 110);
}

#[test]
fn scenario_transfer_from_missing_sender() {
    let mut schema = Schema::new();
    assert_eq!(create(&mut schema, "bob", vec![key(2)], 1, 1), Ok(()));

    let tx = transfer("alice", "bob", 10, 0);
    let result = tx.try_execute(&context(key(1), 2), &mut schema);
    assert_eq!(result, Some(Err(Error::SenderNotFound)));
    assert_eq!(balance_of(&schema, "bob"), 100);
    assert!(schema.wallet(&crypto::hash(b"alice")).is_none());
    assert!(schema.transfer_proposal(&proposal_hash("alice", "bob", 10, 0)).is_none());
}

#[test]
fn scenario_overdraft_is_rejected() {
    let mut schema = Schema::new();
    assert_eq!(create(&mut schema, "alice", vec![key(1)], 1, 1), Ok(()));
    assert_eq!(create(&mut schema, "bob", vec![key(2)], 1, 2), Ok(()));

    let tx = transfer("alice", "bob", 110, 0);
    let result = tx.try_execute(&context(key(1), 3), &mut schema);
    assert_eq!(result, Some(Err(Error::InsufficientCurrencyAmount)));
    assert_eq!(balance_of(&schema, "alice"), 100);
    assert_eq!(balance_of(&schema, "bob"), 100);
    assert_eq!(wallet_of(&schema, "alice").history_len, 1);
    assert_eq!(wallet_of(&schema, "bob").history_len, 1);
    // A rejected transfer is not counted as an approval either.
    assert!(schema.transfer_proposal(&proposal_hash("alice", "bob", 110, 0)).is_none());
}

#[test]
fn scenario_two_keys_quorum_two() {
    let mut schema = Schema::new();
    assert_eq!(create(&mut schema, "alice", vec![key(1), key(2)], 2, 1), Ok(()));
    assert_eq!(create(&mut schema, "bob", vec![key(9)], 1, 2), Ok(()));

    let tx = transfer("alice", "bob", 10, 0);
    assert_eq!(tx.try_execute(&context(key(1), 3), &mut schema), Some(Ok(())));
    assert_eq!(balance_of(&schema, "alice"), 100);
    assert_eq!(balance_of(&schema, "bob"), 100);
    assert_eq!(schema.transfer_proposal(&tx_key(&tx)).unwrap().signs, 1);

    assert_eq!(tx.try_execute(&context(key(2), 4), &mut schema), Some(Ok(())));
    assert_eq!(balance_of(&schema, "alice"), 90);
    assert_eq!(balance_of(&schema, "bob"), 110);
    assert_eq!(schema.transfer_proposal(&tx_key(&tx)).unwrap().signs, 2);
}

fn tx_key(tx: &Transfer) -> crypto::Hash {
    proposal_hash(&tx.from, &tx.to, tx.amount, tx.seed)
}

#[test]
fn resubmission_after_execution_moves_nothing() {
    let mut schema = alice_and_bob(2);
    let tx = transfer("alice", "bob", 10, 0);
    assert_eq!(tx.try_execute(&context(key(1), 3), &mut schema), Some(Ok(())));
    assert_eq!(tx.try_execute(&context(key(2), 4), &mut schema), Some(Ok(())));
    assert_eq!(balance_of(&schema, "alice"), 90);
    assert_eq!(balance_of(&schema, "bob"), 110);

    // The same transfer once more: accepted, counted, and without effect on
    // wallets and histories.
    assert!(!tx.executes(&key(3), &schema));
    assert_eq!(tx.try_execute(&context(key(3), 5), &mut schema), Some(Ok(())));
    assert_eq!(tx.try_execute(&context(key(1), 6), &mut schema), Some(Ok(())));
    assert_eq!(balance_of(&schema, "alice"), 90);
    assert_eq!(balance_of(&schema, "bob"), 110);
    assert_eq!(wallet_of(&schema, "alice").history_len, 2);
    assert_eq!(wallet_of(&schema, "bob").history_len, 2);
    assert_eq!(schema.transfer_proposal(&tx_key(&tx)).unwrap().signs, 4);

    // Another seed makes it another transfer, which collects approvals anew.
    let again = transfer("alice", "bob", 10, 1);
    assert_eq!(again.try_execute(&context(key(1), 7), &mut schema), Some(Ok(())));
    assert_eq!(balance_of(&schema, "alice"), 90);
    assert_eq!(again.try_execute(&context(key(1), 8), &mut schema), Some(Ok(())));
    assert_eq!(balance_of(&schema, "alice"), 80);
    assert_eq!(balance_of(&schema, "bob"), 120);
}

#[test]
fn funds_move_on_the_submission_that_completes_the_quorum() {
    let mut schema = alice_and_bob(3);
    let tx = transfer("alice", "bob", 25, 7);
    let authors = [key(1), key(2), key(2), key(3), key(1)];
    for (i, author) in authors.iter().enumerate() {
        let n = 10 + i as u8;
        let ctx = context(*author, n);
        assert_eq!(tx.executes(author, &schema), i == 2);
        assert_eq!(tx.try_execute(&ctx, &mut schema), Some(Ok(())));
        assert_eq!(schema.transfer_proposal(&tx_key(&tx)).unwrap().signs, i as u32 + 1);
        let moved = i >= 2;
        assert_eq!(balance_of(&schema, "alice"), if moved { 75 } else { 100 });
        assert_eq!(balance_of(&schema, "bob"), if moved { 125 } else { 100 });
    }
    assert_eq!(schema.wallet_history(&crypto::hash(b"alice")), vec![digest(1), digest(12)]);
    assert_eq!(schema.wallet_history(&crypto::hash(b"bob")), vec![digest(2), digest(12)]);
}

#[test]
fn overdraft_at_quorum_is_not_counted() {
    let mut schema = alice_and_bob(2);
    let tx = transfer("alice", "bob", 101, 0);
    assert_eq!(tx.try_execute(&context(key(1), 3), &mut schema), Some(Ok(())));
    assert_eq!(schema.transfer_proposal(&tx_key(&tx)).unwrap().signs, 1);
    let result = tx.try_execute(&context(key(2), 4), &mut schema);
    assert_eq!(result, Some(Err(Error::InsufficientCurrencyAmount)));
    assert_eq!(schema.transfer_proposal(&tx_key(&tx)).unwrap().signs, 1);
    assert_eq!(balance_of(&schema, "alice"), 100);
    assert_eq!(balance_of(&schema, "bob"), 100);

    // Once the sender can pay, the next submission completes the quorum.
    let issue = Issue { to: "alice".to_owned(), amount: 1, seed: 0 };
    assert_eq!(issue.try_execute(&context(key(1), 5), &mut schema), Some(Ok(())));
    assert_eq!(tx.try_execute(&context(key(2), 6), &mut schema), Some(Ok(())));
    assert_eq!(balance_of(&schema, "alice"), 0);
    assert_eq!(balance_of(&schema, "bob"), 201);
}

#[test]
fn transfer_of_the_whole_balance() {
    let mut schema = alice_and_bob(1);
    let tx = transfer("alice", "bob", 100, 0);
    assert_eq!(tx.try_execute(&context(key(1), 3), &mut schema), Some(Ok(())));
    assert_eq!(balance_of(&schema, "alice"), 0);
    assert_eq!(balance_of(&schema, "bob"), 200);
}

#[test]
fn transfer_checks_in_order() {
    let mut schema = alice_and_bob(1);

    // Same name on both sides: rejected before anything is looked up.
    let same = transfer("carol", "carol", 1, 0);
    assert_eq!(same.try_execute(&context(key(1), 3), &mut schema), Some(Err(Error::SenderSameAsReceiver)));
    let same = transfer("alice", "alice", 1, 0);
    assert_eq!(same.try_execute(&context(key(1), 3), &mut schema), Some(Err(Error::SenderSameAsReceiver)));

    // A missing sender is reported before a missing receiver.
    let tx = transfer("carol", "dave", 1, 0);
    assert_eq!(tx.try_execute(&context(key(1), 3), &mut schema), Some(Err(Error::SenderNotFound)));

    // A wrong signer is reported before a missing receiver.
    let tx = transfer("alice", "dave", 1, 0);
    assert_eq!(tx.try_execute(&context(key(9), 3), &mut schema), Some(Err(Error::WrongSigner)));

    let tx = transfer("alice", "dave", 1, 0);
    assert_eq!(tx.try_execute(&context(key(2), 3), &mut schema), Some(Err(Error::ReceiverNotFound)));

    // Bob's key may not sign for alice.
    let tx = transfer("alice", "bob", 1, 0);
    assert_eq!(tx.try_execute(&context(key(9), 3), &mut schema), Some(Err(Error::WrongSigner)));

    assert_eq!(balance_of(&schema, "alice"), 100);
    assert_eq!(balance_of(&schema, "bob"), 100);
    assert_lengths_agree(&schema, &["alice", "bob", "carol", "dave"]);
}

#[test]
fn any_key_of_the_wallet_may_approve() {
    for n in 1..=3u8 {
        let mut schema = alice_and_bob(1);
        let tx = transfer("alice", "bob", 5, 0);
        assert_eq!(tx.try_execute(&context(key(n), 3), &mut schema), Some(Ok(())));
        assert_eq!(balance_of(&schema, "alice"), 95);
    }
}

#[test]
fn issue_to_missing_wallet() {
    let mut schema = alice_and_bob(1);
    let issue = Issue { to: "carol".to_owned(), amount: 50, seed: 0 };
    assert_eq!(issue.try_execute(&context(key(1), 3), &mut schema), Some(Err(Error::ReceiverNotFound)));
    assert!(schema.wallet(&crypto::hash(b"carol")).is_none());
    assert!(schema.wallet_history(&crypto::hash(b"carol")).is_empty());
}

#[test]
fn issue_records_history_and_digest() {
    let mut schema = alice_and_bob(1);
    let issue = Issue { to: "bob".to_owned(), amount: 7, seed: 3 };
    let ctx = TransactionContext::new(key(1), digest(40), digest(41), digest(42));
    assert_eq!(issue.execute(&ctx, &mut schema), Ok(()));
    let bob = wallet_of(&schema, "bob");
    assert_eq!(bob.balance, 107);
    assert_eq!(bob.history_len, 2);
    assert_eq!(bob.history_hash, digest(42));
    assert_eq!(schema.wallet_history(&crypto::hash(b"bob")), vec![digest(2), digest(40)]);
    assert_eq!(bob.quorum, 1);
    assert_eq!(bob.pub_keys, vec![key(9)]);
    assert_eq!(bob.name, "bob");
}

#[test]
fn issue_that_would_overflow_is_not_handled() {
    let mut schema = alice_and_bob(1);
    let issue = Issue { to: "bob".to_owned(), amount: u64::MAX - 99, seed: 0 };
    assert!(!issue.fits(&schema));
    assert_eq!(issue.try_execute(&context(key(1), 3), &mut schema), None);
    assert_eq!(balance_of(&schema, "bob"), 100);
    assert_eq!(wallet_of(&schema, "bob").history_len, 1);

    let issue = Issue { to: "bob".to_owned(), amount: u64::MAX - 100, seed: 0 };
    assert!(issue.fits(&schema));
    assert_eq!(issue.try_execute(&context(key(1), 3), &mut schema), Some(Ok(())));
    assert_eq!(balance_of(&schema, "bob"), u64::MAX);
}

#[test]
fn transfer_that_would_overflow_the_receiver_is_not_handled() {
    let mut schema = alice_and_bob(1);
    let issue = Issue { to: "bob".to_owned(), amount: u64::MAX - 105, seed: 0 };
    assert_eq!(issue.try_execute(&context(key(1), 3), &mut schema), Some(Ok(())));
    assert_eq!(balance_of(&schema, "bob"), u64::MAX - 5);

    let tx = transfer("alice", "bob", 6, 0);
    assert!(!tx.fits(&key(1), &schema));
    assert_eq!(tx.try_execute(&context(key(1), 4), &mut schema), None);
    assert_eq!(balance_of(&schema, "alice"), 100);
    assert_eq!(balance_of(&schema, "bob"), u64::MAX - 5);
    assert!(schema.transfer_proposal(&tx_key(&tx)).is_none());

    let tx = transfer("alice", "bob", 5, 0);
    assert!(tx.fits(&key(1), &schema));
    assert_eq!(tx.try_execute(&context(key(1), 4), &mut schema), Some(Ok(())));
    assert_eq!(balance_of(&schema, "bob"), u64::MAX);
}

#[test]
fn approvals_that_would_overflow_are_not_handled() {
    let mut schema = alice_and_bob(2);
    let tx = transfer("alice", "bob", 5, 0);
    schema.increase_proposal_signs(TransferProposal::new("alice", "bob", 5, 0, u32::MAX - 1));
    assert_eq!(schema.transfer_proposal(&tx_key(&tx)).unwrap().signs, u32::MAX);
    assert!(!tx.fits(&key(1), &schema));
    assert_eq!(tx.try_execute(&context(key(1), 3), &mut schema), None);
    assert_eq!(schema.transfer_proposal(&tx_key(&tx)).unwrap().signs, u32::MAX);
    // A rejected submission counts nothing, so it is handled.
    assert!(tx.fits(&key(9), &schema));
    assert_eq!(tx.try_execute(&context(key(9), 3), &mut schema), Some(Err(Error::WrongSigner)));
}

#[test]
fn create_wallet_checks() {
    let mut schema = Schema::new();

    // The author must be the first key.
    let tx = CreateWallet { name: "alice".to_owned(), pub_keys: vec![key(1), key(2)], quorum: 1 };
    assert_eq!(tx.execute(&context(key(2), 1), &mut schema), Err(Error::WrongSigner));
    let tx = CreateWallet { name: "alice".to_owned(), pub_keys: vec![], quorum: 0 };
    assert_eq!(tx.execute(&context(key(1), 1), &mut schema), Err(Error::WrongSigner));

    // The quorum must lie between one and the number of keys.
    assert_eq!(create(&mut schema, "alice", vec![key(1), key(2)], 0, 1), Err(Error::QuorumIsNotCorrect));
    assert_eq!(create(&mut schema, "alice", vec![key(1), key(2)], 3, 1), Err(Error::QuorumIsNotCorrect));
    assert!(schema.wallet(&crypto::hash(b"alice")).is_none());
    assert!(schema.wallet_history(&crypto::hash(b"alice")).is_empty());
    assert_eq!(create(&mut schema, "alice", vec![key(1), key(2)], 2, 1), Ok(()));

    // A name is taken once.
    assert_eq!(create(&mut schema, "alice", vec![key(1)], 1, 2), Err(Error::WalletAlreadyExists));
    assert_eq!(create(&mut schema, "alice", vec![key(5)], 1, 2), Err(Error::WalletAlreadyExists));
    // An existing name is reported before a quorum that is not correct,
    // a wrong signer before both.
    assert_eq!(create(&mut schema, "alice", vec![key(1)], 0, 2), Err(Error::WalletAlreadyExists));
    let tx = CreateWallet { name: "alice".to_owned(), pub_keys: vec![key(1)], quorum: 0 };
    assert_eq!(tx.execute(&context(key(3), 2), &mut schema), Err(Error::WrongSigner));

    let alice = wallet_of(&schema, "alice");
    assert_eq!(alice.name, "alice");
    assert_eq!(alice.pub_keys, vec![key(1), key(2)]);
    assert_eq!(alice.quorum, 2);
    assert_eq!(alice.balance, 100);
    assert_eq!(alice.history_len, 1);
    assert_eq!(alice.history_hash, digest(201));
    assert_eq!(schema.wallet_history(&crypto::hash(b"alice")), vec![digest(1)]);
}

#[test]
fn quorum_may_equal_the_number_of_keys() {
    let mut schema = Schema::new();
    assert_eq!(create(&mut schema, "a", vec![key(1)], 1, 1), Ok(()));
    assert_eq!(create(&mut schema, "b", vec![key(1), key(2), key(3)], 3, 2), Ok(()));
    assert_eq!(create(&mut schema, "c", vec![key(1), key(2), key(3)], 4, 3), Err(Error::QuorumIsNotCorrect));
}

#[test]
fn history_length_matches_history_after_every_operation() {
    let mut schema = Schema::new();
    let names = ["alice", "bob", "carol"];
    let operations = vec![
        (key(1), WalletTransactions::CreateWallet(CreateWallet { name: "alice".to_owned(), pub_keys: vec![key(1), key(2)], quorum: 2 })),
        (key(3), WalletTransactions::CreateWallet(CreateWallet { name: "bob".to_owned(), pub_keys: vec![key(3)], quorum: 1 })),
        (key(3), WalletTransactions::CreateWallet(CreateWallet { name: "bob".to_owned(), pub_keys: vec![key(3)], quorum: 1 })),
        (key(1), WalletTransactions::Issue(Issue { to: "alice".to_owned(), amount: 50, seed: 0 })),
        (key(1), WalletTransactions::Issue(Issue { to: "carol".to_owned(), amount: 50, seed: 0 })),
        (key(1), WalletTransactions::Transfer(transfer("alice", "bob", 120, 0))),
        (key(2), WalletTransactions::Transfer(transfer("alice", "bob", 120, 0))),
        (key(3), WalletTransactions::Transfer(transfer("bob", "alice", 500, 0))),
        (key(3), WalletTransactions::Transfer(transfer("bob", "alice", 220, 1))),
        (key(3), WalletTransactions::Transfer(transfer("bob", "carol", 1, 1))),
        (key(1), WalletTransactions::Transfer(transfer("bob", "alice", 1, 2))),
    ];
    let expected = [
        Ok(()),
        Ok(()),
        Err(Error::WalletAlreadyExists),
        Ok(()),
        Err(Error::ReceiverNotFound),
        Ok(()),
        Ok(()),
        Err(Error::InsufficientCurrencyAmount),
        Ok(()),
        Err(Error::ReceiverNotFound),
        Err(Error::WrongSigner),
    ];
    for (i, (author, operation)) in operations.iter().enumerate() {
        let result = operation.try_execute(&context(*author, i as u8), &mut schema);
        assert_eq!(result, Some(expected[i]));
        assert_lengths_agree(&schema, &names);
    }
    assert_eq!(balance_of(&schema, "alice"), 250);
    assert_eq!(balance_of(&schema, "bob"), 0);
    assert_eq!(wallet_of(&schema, "alice").history_len, 4);
    assert_eq!(wallet_of(&schema, "bob").history_len, 3);
    assert_eq!(
        schema.wallet_history(&crypto::hash(b"alice")),
        vec![digest(0), digest(3), digest(6), digest(8)]
    );
    assert_eq!(schema.wallet_history(&crypto::hash(b"bob")), vec![digest(1), digest(6), digest(8)]);
    // The digests recorded are those handed over with the last change.
    assert_eq!(wallet_of(&schema, "alice").history_hash, digest(208));
    assert_eq!(wallet_of(&schema, "bob").history_hash, digest(108));
}

#[test]
fn dispatch_follows_the_operation() {
    let mut schema = alice_and_bob(1);
    let op = WalletTransactions::Transfer(transfer("alice", "bob", 10, 0));
    assert_eq!(op.execute(&context(key(1), 3), &mut schema), Ok(()));
    let op = WalletTransactions::Issue(Issue { to: "alice".to_owned(), amount: 1, seed: 0 });
    assert_eq!(op.execute(&context(key(1), 4), &mut schema), Ok(()));
    let op = WalletTransactions::CreateWallet(CreateWallet {
        name: "carol".to_owned(),
        pub_keys: vec![key(4)],
        quorum: 1,
    });
    assert_eq!(op.execute(&context(key(4), 5), &mut schema), Ok(()));
    assert_eq!(balance_of(&schema, "alice"), 91);
    assert_eq!(balance_of(&schema, "bob"), 110);
    assert_eq!(balance_of(&schema, "carol"), 100);

    let op = WalletTransactions::Issue(Issue { to: "carol".to_owned(), amount: u64::MAX, seed: 0 });
    assert_eq!(op.try_execute(&context(key(1), 6), &mut schema), None);
    assert_eq!(balance_of(&schema, "carol"), 100);
}

#[test]
fn schema_procedures() {
    let mut schema = Schema::new();
    let created =
        schema.create_wallet(&"alice".to_owned(), &vec![key(1), key(2)], 2, &digest(1), &digest(11));
    assert_eq!(created.name, "alice");
    assert_eq!(created.pub_keys, vec![key(1), key(2)]);
    assert_eq!(created.quorum, 2);
    assert_eq!(created.balance, 100);
    assert_eq!(created.history_len, 1);
    assert_eq!(created.history_hash, digest(11));
    let alice = wallet_of(&schema, "alice");
    assert_eq!(alice.balance, 100);
    assert_eq!(alice.history_len, 1);
    assert_eq!(alice.history_hash, digest(11));

    schema.increase_wallet_balance(alice, 23, &digest(2), &digest(12));
    let alice = wallet_of(&schema, "alice");
    assert_eq!(alice.balance, 123);
    assert_eq!(alice.history_len, 2);
    assert_eq!(alice.history_hash, digest(12));

    schema.decrease_wallet_balance(alice, 123, &digest(3), &digest(13));
    let alice = wallet_of(&schema, "alice");
    assert_eq!(alice.balance, 0);
    assert_eq!(alice.history_len, 3);
    assert_eq!(alice.history_hash, digest(13));
    assert_eq!(alice.pub_keys, vec![key(1), key(2)]);
    assert_eq!(alice.quorum, 2);
    assert_eq!(
        schema.wallet_history(&crypto::hash(b"alice")),
        vec![digest(1), digest(2), digest(3)]
    );

    // Creating a wallet under a name that has a history keeps the history.
    let created = schema.create_wallet(&"alice".to_owned(), &vec![key(5)], 1, &digest(4), &digest(14));
    assert_eq!(created.history_len, 4);
    let alice = wallet_of(&schema, "alice");
    assert_eq!(alice.balance, 100);
    assert_eq!(alice.history_len, 4);
    assert_eq!(alice.pub_keys, vec![key(5)]);
}

#[test]
fn proposal_procedures() {
    let mut schema = Schema::new();
    let from = "alice".to_owned();
    let to = "bob".to_owned();
    let hash = proposal_hash("alice", "bob", 10, 0);
    assert!(schema.transfer_proposal(&hash).is_none());

    schema.create_transfer_proposal(&from, &to, 10, 0);
    let proposal = schema.transfer_proposal(&hash).unwrap();
    assert_eq!(proposal.from, "alice");
    assert_eq!(proposal.to, "bob");
    assert_eq!(proposal.amount, 10);
    assert_eq!(proposal.seed, 0);
    assert_eq!(proposal.signs, 1);
    assert_eq!(proposal.hash(), hash);

    schema.increase_proposal_signs(proposal);
    assert_eq!(schema.transfer_proposal(&hash).unwrap().signs, 2);
    let proposal = schema.transfer_proposal(&hash).unwrap();
    schema.increase_proposal_signs(proposal);
    assert_eq!(schema.transfer_proposal(&hash).unwrap().signs, 3);

    // Other transfers have other proposals.
    assert!(schema.transfer_proposal(&proposal_hash("alice", "bob", 10, 1)).is_none());
    assert!(schema.transfer_proposal(&proposal_hash("alice", "bob", 11, 0)).is_none());
    assert!(schema.transfer_proposal(&proposal_hash("bob", "alice", 10, 0)).is_none());
    schema.create_transfer_proposal(&from, &to, 10, 1);
    assert_eq!(schema.transfer_proposal(&proposal_hash("alice", "bob", 10, 1)).unwrap().signs, 1);
    assert_eq!(schema.transfer_proposal(&hash).unwrap().signs, 3);
}

#[test]
fn many_wallets_are_kept_apart() {
    let mut schema = Schema::new();
    for n in 0..40u8 {
        let name = format!("wallet-{}", n);
        assert_eq!(create(&mut schema, &name, vec![key(n)], 1, n), Ok(()));
    }
    for n in 0..40u8 {
        let issue = Issue { to: format!("wallet-{}", n), amount: n as u64, seed: 0 };
        assert_eq!(issue.try_execute(&context(key(0), 50), &mut schema), Some(Ok(())));
    }
    for n in 0..40u8 {
        let name = format!("wallet-{}", n);
        let wallet = wallet_of(&schema, &name);
        assert_eq!(wallet.name, name);
        assert_eq!(wallet.balance, 100 + n as u64);
        assert_eq!(wallet.pub_keys, vec![key(n)]);
        assert_eq!(wallet.history_len, 2);
        assert_eq!(schema.wallet_history(&crypto::hash(name.as_bytes())), vec![digest(n), digest(50)]);
    }
}

#[test]
fn error_codes_and_descriptions() {
    let expected: [(Error, u8, &str); 8] = [
        (Error::WalletAlreadyExists, 0, "Wallet already exists"),
        (Error::SenderNotFound, 1, "Sender doesn't exist"),
        (Error::ReceiverNotFound, 2, "Receiver doesn't exist"),
        (Error::InsufficientCurrencyAmount, 3, "Insufficient currency amount"),
        (Error::NotEnoughSignsYet, 4, "Not enough signs yet"),
        (Error::QuorumIsNotCorrect, 5, "Quorum is not correct"),
        (Error::SenderSameAsReceiver, 0, ""),
        (Error::WrongSigner, 1, ""),
    ];
    for (error, code, description) in expected {
        assert_eq!(error.code(), code);
        assert_eq!(error.description(), description);
    }
}

#[test]
fn executes_tells_what_execute_will_do() {
    let mut schema = alice_and_bob(2);
    let tx = transfer("alice", "bob", 10, 0);
    assert!(!tx.executes(&key(1), &schema));
    assert_eq!(tx.try_execute(&context(key(1), 3), &mut schema), Some(Ok(())));
    assert!(tx.executes(&key(2), &schema));
    // Not for a key that may not sign, nor for an amount that cannot be paid.
    assert!(!tx.executes(&key(9), &schema));
    let large = transfer("alice", "bob", 101, 0);
    assert_eq!(large.try_execute(&context(key(1), 4), &mut schema), Some(Ok(())));
    assert!(!large.executes(&key(2), &schema));
    assert!(!transfer("alice", "alice", 1, 0).executes(&key(1), &schema));
    assert!(!transfer("carol", "bob", 1, 0).executes(&key(1), &schema));
    assert!(!transfer("alice", "carol", 1, 0).executes(&key(1), &schema));
}

#[test]
fn wallets_lists_every_wallet_once() {
    let mut schema = Schema::new();
    assert!(schema.wallets().is_empty());
    let names = ["alice", "bob", "carol", "dave"];
    for (i, name) in names.iter().enumerate() {
        assert_eq!(create(&mut schema, name, vec![key(i as u8)], 1, i as u8), Ok(()));
    }
    let issue = Issue { to: "bob".to_owned(), amount: 5, seed: 0 };
    assert_eq!(issue.try_execute(&context(key(0), 9), &mut schema), Some(Ok(())));

    let wallets = schema.wallets();
    assert_eq!(wallets.len(), 4);
    for name in names {
        let hash = crypto::hash(name.as_bytes());
        let found: Vec<&Wallet> =
            wallets.iter().filter(|(key, _)| *key == hash).map(|(_, wallet)| wallet).collect();
        assert_eq!(found.len(), 1);
        assert_eq!(found[0].name, name);
        assert_eq!(found[0].balance, if name == "bob" { 105 } else { 100 });
    }
}

#[test]
fn transfer_proposals_lists_every_proposal_once() {
    let mut schema = alice_and_bob(3);
    assert!(schema.transfer_proposals().is_empty());
    for seed in 0..5u64 {
        let tx = transfer("alice", "bob", 1, seed);
        for n in 0..=seed {
            assert_eq!(tx.try_execute(&context(key(1), n as u8), &mut schema), Some(Ok(())));
        }
    }
    let proposals = schema.transfer_proposals();
    assert_eq!(proposals.len(), 5);
    for seed in 0..5u64 {
        let hash = proposal_hash("alice", "bob", 1, seed);
        let found: Vec<&TransferProposal> = proposals
            .iter()
            .filter(|(key, _)| *key == hash)
            .map(|(_, proposal)| proposal)
            .collect();
        assert_eq!(found.len(), 1);
        assert_eq!(found[0].seed, seed);
        assert_eq!(found[0].signs, seed as u32 + 1);
    }
    assert_eq!(balance_of(&schema, "alice"), 97);
    assert_eq!(balance_of(&schema, "bob"), 103);
}

#[test]
fn verify_answers_as_execute_and_changes_nothing() {
    let mut schema = alice_and_bob(2);
    let cases = vec![
        (key(1), WalletTransactions::Transfer(transfer("alice", "bob", 10, 0)), Ok(())),
        (key(9), WalletTransactions::Transfer(transfer("alice", "bob", 10, 0)), Err(Error::WrongSigner)),
        (key(1), WalletTransactions::Transfer(transfer("alice", "alice", 10, 0)), Err(Error::SenderSameAsReceiver)),
        (key(1), WalletTransactions::Transfer(transfer("carol", "bob", 10, 0)), Err(Error::SenderNotFound)),
        (key(1), WalletTransactions::Transfer(transfer("alice", "carol", 10, 0)), Err(Error::ReceiverNotFound)),
        (key(9), WalletTransactions::Transfer(transfer("bob", "alice", 101, 0)), Err(Error::InsufficientCurrencyAmount)),
        (key(1), WalletTransactions::Issue(Issue { to: "bob".to_owned(), amount: 1, seed: 0 }), Ok(())),
        (key(1), WalletTransactions::Issue(Issue { to: "carol".to_owned(), amount: 1, seed: 0 }), Err(Error::ReceiverNotFound)),
        (key(4), WalletTransactions::CreateWallet(CreateWallet { name: "carol".to_owned(), pub_keys: vec![key(4)], quorum: 1 }), Ok(())),
        (key(4), WalletTransactions::CreateWallet(CreateWallet { name: "carol".to_owned(), pub_keys: vec![key(4)], quorum: 2 }), Err(Error::QuorumIsNotCorrect)),
        (key(4), WalletTransactions::CreateWallet(CreateWallet { name: "bob".to_owned(), pub_keys: vec![key(4)], quorum: 1 }), Err(Error::WalletAlreadyExists)),
        (key(5), WalletTransactions::CreateWallet(CreateWallet { name: "carol".to_owned(), pub_keys: vec![key(4)], quorum: 1 }), Err(Error::WrongSigner)),
    ];
    for (author, operation, expected) in &cases {
        assert_eq!(operation.verify(author, &schema), *expected);
        assert_eq!(schema.wallets().len(), 2);
        assert!(schema.transfer_proposals().is_empty());
    }
    for (i, (author, operation, expected)) in cases.iter().enumerate() {
        let mut fresh = alice_and_bob(2);
        assert_eq!(operation.try_execute(&context(*author, 20 + i as u8), &mut fresh), Some(*expected));
    }
    // Verifying is repeatable.
    let tx = transfer("alice", "bob", 10, 0);
    assert_eq!(tx.verify(&key(1), &schema), Ok(()));
    assert_eq!(tx.verify(&key(1), &schema), Ok(()));
    assert_eq!(tx.try_execute(&context(key(1), 3), &mut schema), Some(Ok(())));
    assert_eq!(schema.transfer_proposal(&tx_key(&tx)).unwrap().signs, 1);
}

#[test]
fn extended_histories_are_those_that_execute_leaves() {
    let mut schema = alice_and_bob(2);
    let tx = WalletTransactions::Transfer(transfer("alice", "bob", 10, 0));

    // A pending transfer extends no history.
    let histories = tx.extended_histories(&key(1), &digest(3), &schema);
    assert_eq!(histories.sender, None);
    assert_eq!(histories.receiver, None);
    assert_eq!(tx.try_execute(&context(key(1), 3), &mut schema), Some(Ok(())));

    // The transfer that completes the quorum extends both.
    let histories = tx.extended_histories(&key(2), &digest(4), &schema);
    assert_eq!(histories.sender, Some(vec![digest(1), digest(4)]));
    assert_eq!(histories.receiver, Some(vec![digest(2), digest(4)]));
    assert_eq!(tx.try_execute(&context(key(2), 4), &mut schema), Some(Ok(())));
    assert_eq!(schema.wallet_history(&crypto::hash(b"alice")), vec![digest(1), digest(4)]);
    assert_eq!(schema.wallet_history(&crypto::hash(b"bob")), vec![digest(2), digest(4)]);
    assert_eq!(wallet_of(&schema, "alice").history_hash, digest(104));
    assert_eq!(wallet_of(&schema, "bob").history_hash, digest(204));

    // A rejected operation extends none.
    let histories = tx.extended_histories(&key(9), &digest(5), &schema);
    assert_eq!(histories.sender, None);
    assert_eq!(histories.receiver, None);

    let issue = WalletTransactions::Issue(Issue { to: "bob".to_owned(), amount: 1, seed: 0 });
    let histories = issue.extended_histories(&key(1), &digest(6), &schema);
    assert_eq!(histories.sender, None);
    assert_eq!(histories.receiver, Some(vec![digest(2), digest(4), digest(6)]));
    let issue = WalletTransactions::Issue(Issue { to: "carol".to_owned(), amount: 1, seed: 0 });
    let histories = issue.extended_histories(&key(1), &digest(6), &schema);
    assert_eq!(histories.receiver, None);

    let create = WalletTransactions::CreateWallet(CreateWallet {
        name: "carol".to_owned(),
        pub_keys: vec![key(4)],
        quorum: 1,
    });
    let histories = create.extended_histories(&key(4), &digest(7), &schema);
    assert_eq!(histories.sender, None);
    assert_eq!(histories.receiver, Some(vec![digest(7)]));
    let histories = create.extended_histories(&key(5), &digest(7), &schema);
    assert_eq!(histories.receiver, None);
}

#[test]
fn transfers_with_names_of_the_same_letters_collect_approvals_apart() {
    let mut schema = Schema::new();
    assert_eq!(create(&mut schema, "ab", vec![key(1), key(2)], 2, 1), Ok(()));
    assert_eq!(create(&mut schema, "a", vec![key(3), key(4)], 2, 2), Ok(()));
    assert_eq!(create(&mut schema, "c", vec![key(5)], 1, 3), Ok(()));
    assert_eq!(create(&mut schema, "bc", vec![key(6)], 1, 4), Ok(()));

    let first = transfer("ab", "c", 1, 0);
    let second = transfer("a", "bc", 1, 0);
    assert_eq!(first.try_execute(&context(key(1), 5), &mut schema), Some(Ok(())));
    // One approval of the first transfer is none of the second.
    assert!(!second.executes(&key(3), &schema));
    assert_eq!(second.try_execute(&context(key(3), 6), &mut schema), Some(Ok(())));
    for name in ["ab", "a", "c", "bc"] {
        assert_eq!(balance_of(&schema, name), 100);
    }
    assert_eq!(schema.transfer_proposal(&tx_key(&first)).unwrap().signs, 1);
    assert_eq!(schema.transfer_proposal(&tx_key(&second)).unwrap().signs, 1);
    assert_eq!(schema.transfer_proposals().len(), 2);

    assert_eq!(second.try_execute(&context(key(4), 7), &mut schema), Some(Ok(())));
    assert_eq!(balance_of(&schema, "a"), 99);
    assert_eq!(balance_of(&schema, "bc"), 101);
    assert_eq!(balance_of(&schema, "ab"), 100);
    assert_eq!(balance_of(&schema, "c"), 100);
}

#[test]
fn a_counted_approval_records_the_fields_of_the_transfer() {
    let mut schema = alice_and_bob(3);
    let tx = transfer("alice", "bob", 10, 4);
    for n in 1..=2u32 {
        assert_eq!(tx.try_execute(&context(key(1), 10 + n as u8), &mut schema), Some(Ok(())));
        let record = schema.transfer_proposal(&tx_key(&tx)).unwrap();
        assert_eq!(record.from, "alice");
        assert_eq!(record.to, "bob");
        assert_eq!(record.amount, 10);
        assert_eq!(record.seed, 4);
        assert_eq!(record.signs, n);
    }
}
