use signed_message::nodes::NodeIndex;
use signed_message::signed::{
    KeyBox, MultiKeychain, PartialMultisignature, PartiallyMultisigned, Signed, UncheckedSigned,
};
use signed_message::testing::{TestKeychain, TestMessage, TestMultisignature, TestSignature};

fn ok_or_panic<T, E>(result: Result<T, E>, why: &str) -> T {
    match result {
        Ok(value) => value,
        Err(_) => panic!("expected success: {}", why),
    }
}

fn err_or_panic<T, E>(result: Result<T, E>, why: &str) -> E {
    match result {
        Ok(_) => panic!("expected failure: {}", why),
        Err(error) => error,
    }
}

fn keychain(index: u64, threshold: usize) -> TestKeychain {
    TestKeychain { own_index: NodeIndex(index), threshold }
}

fn message(content: &[u8], signer: u64) -> TestMessage {
    TestMessage { content: content.to_vec(), signer: NodeIndex(signer) }
}

#[test]
fn round_trip_sign_then_check() {
    let kc = keychain(0, 1);
    let msg = message(&[1, 2, 3], 0);
    let signed = Signed::sign(&kc, msg.clone());
    let unchecked = signed.into_unchecked();
    let rechecked = ok_or_panic(unchecked.check(&kc), "freshly signed carrier must pass check");
    assert_eq!(rechecked.as_signable(), &msg);
}

#[test]
fn round_trip_empty_payload() {
    let kc = keychain(7, 1);
    let msg = message(&[], 7);
    let signed = Signed::sign(&kc, msg.clone());
    let rechecked = ok_or_panic(signed.into_unchecked().check(&kc), "empty payload still round-trips");
    assert_eq!(rechecked.as_signable(), &msg);
}

#[test]
fn tamper_any_byte_is_rejected() {
    let kc = keychain(0, 1);
    let msg = message(&[10, 20, 30, 40], 0);
    let signed = Signed::sign(&kc, msg.clone());
    let unchecked = signed.into_unchecked();
    let good = unchecked.as_signature();
    for pos in 0..good.msg.len() {
        let mut bad_bytes = good.msg.clone();
        bad_bytes[pos] ^= 0xff;
        let tampered = TestSignature { msg: bad_bytes.clone(), index: good.index };
        let err = err_or_panic(
            UncheckedSigned::new(msg.clone(), tampered).check(&kc),
            "a tampered signature must fail verification",
        );
        let carrier = err.into_unchecked();
        assert_eq!(carrier.as_signable(), &msg);
        assert_eq!(carrier.as_signature().msg, bad_bytes);
        assert_eq!(carrier.as_signature().index, good.index);
    }
}

#[test]
fn tamper_rejected_with_explicit_index() {
    let kc = keychain(3, 1);
    let msg = message(&[5, 6], 3);
    let unchecked = Signed::sign(&kc, msg.clone()).into_unchecked();
    let mut bad_bytes = unchecked.as_signature().msg.clone();
    bad_bytes[0] ^= 1;
    let tampered = TestSignature { msg: bad_bytes, index: NodeIndex(3) };
    let err = err_or_panic(
        UncheckedSigned::new(msg.clone(), tampered).check_with_index(&kc, NodeIndex(3)),
        "a tampered signature must fail check_with_index",
    );
    assert_eq!(err.into_unchecked().as_signable(), &msg);
}

#[test]
fn wrong_index_is_rejected_even_for_a_valid_signature() {
    let kc = keychain(0, 1);
    let msg = message(&[8, 8, 8], 0);
    let unchecked = Signed::sign(&kc, msg.clone()).into_unchecked();
    // The signature itself is valid: the true signer index accepts it.
    let again = ok_or_panic(unchecked.check_with_index(&kc, NodeIndex(0)), "true index verifies");
    let unchecked = again.into_unchecked();
    // Any other participant index rejects the same signature.
    let err = err_or_panic(
        unchecked.check_with_index(&kc, NodeIndex(1)),
        "a different index must fail verification",
    );
    assert_eq!(err.into_unchecked().as_signable(), &msg);
}

#[test]
fn check_partial_accepts_a_valid_aggregate() {
    let kc = keychain(0, 2);
    let msg = message(&[1, 1], 0);
    let unchecked = PartiallyMultisigned::sign(msg.clone(), &kc).into_unchecked();
    let partial = ok_or_panic(unchecked.check_partial(&kc), "a self-signed aggregate verifies");
    assert_eq!(partial.as_signable(), &msg);
}

#[test]
fn check_partial_rejects_a_foreign_aggregate() {
    let kc = keychain(0, 2);
    let msg = message(&[1, 1], 0);
    let stray = TestSignature { msg: vec![9, 9], index: NodeIndex(0) };
    let aggregate = kc.from_signature(&stray, NodeIndex(0));
    let err = err_or_panic(
        UncheckedSigned::new(msg.clone(), aggregate).check_partial(&kc),
        "an aggregate over different bytes must fail",
    );
    assert_eq!(err.into_unchecked().as_signable(), &msg);
}

#[test]
fn add_signature_over_a_different_payload_is_a_silent_no_op() {
    let kc0 = keychain(0, 2);
    let kc1 = keychain(1, 2);
    let msg = message(&[1, 2, 3], 0);
    let foreign_msg = message(&[99], 1);

    let reference = PartiallyMultisigned::sign(msg.clone(), &kc0).into_unchecked();
    let mut partial = PartiallyMultisigned::sign(msg.clone(), &kc0);
    let foreign = Signed::sign(&kc1, foreign_msg);
    partial.add_signature(foreign, NodeIndex(1));
    let after = partial.into_unchecked();
    assert_eq!(after.as_signature(), reference.as_signature());
    assert_eq!(after.as_signable(), &msg);
}

#[test]
fn incomplete_aggregate_is_returned_unchanged_and_can_be_retried() {
    let kc0 = keychain(0, 2);
    let kc1 = keychain(1, 2);
    let msg = message(&[4, 5], 0);

    let reference = PartiallyMultisigned::sign(msg.clone(), &kc0).into_unchecked();
    let partial = PartiallyMultisigned::sign(msg.clone(), &kc0);
    let err = err_or_panic(partial.try_into_complete(&kc0), "one of two signatures is incomplete");
    let mut partial = err.partial;
    assert_eq!(partial.as_signable(), &msg);
    // The recovered aggregate is unchanged ...
    {
        let recovered = PartiallyMultisigned::sign(msg.clone(), &kc0);
        let recovered = err_or_panic(recovered.try_into_complete(&kc0), "still incomplete").partial;
        assert_eq!(recovered.into_unchecked().as_signature(), reference.as_signature());
    }
    // ... and still accepts signatures, after which the retry succeeds.
    partial.add_signature(Signed::sign(&kc1, msg.clone()), NodeIndex(1));
    let complete = ok_or_panic(partial.try_into_complete(&kc0), "quorum of two reached");
    assert_eq!(complete.as_signable(), &msg);
}

#[test]
fn completeness_is_monotone_under_further_valid_signatures() {
    let kc0 = keychain(0, 2);
    let kc1 = keychain(1, 2);
    let kc2 = keychain(2, 2);
    let msg = message(&[6, 7, 8], 0);

    let mut partial = PartiallyMultisigned::sign(msg.clone(), &kc0);
    partial.add_signature(Signed::sign(&kc1, msg.clone()), NodeIndex(1));
    // The aggregate is complete now; absorbing a further valid signature
    // must not make the completeness upgrade fail.
    partial.add_signature(Signed::sign(&kc2, msg.clone()), NodeIndex(2));
    let complete = ok_or_panic(partial.try_into_complete(&kc0), "completeness is monotone");
    assert_eq!(complete.as_signable(), &msg);
}

#[test]
fn quorum_scenario_three_participants() {
    let kc0 = keychain(0, 2);
    let kc1 = keychain(1, 2);
    let msg = message(&[42], 0);

    // Participant 0 self-signs, participant 1 contributes independently.
    let mut partial = PartiallyMultisigned::sign(msg.clone(), &kc0);
    let signed_1 = Signed::sign(&kc1, msg.clone());
    partial.add_signature(signed_1, NodeIndex(1));
    let multisigned = ok_or_panic(partial.try_into_complete(&kc0), "quorum of two reached");
    assert_eq!(multisigned.as_signable(), &msg);

    // A signature over a fourth, unrelated payload leaves the aggregate at
    // size one, and the completeness upgrade still fails.
    let unrelated = message(&[77, 78], 1);
    let mut partial = PartiallyMultisigned::sign(msg.clone(), &kc0);
    let stray = Signed::sign(&kc1, unrelated);
    partial.add_signature(stray, NodeIndex(1));
    let carrier = err_or_panic(partial.try_into_complete(&kc0), "still below quorum").partial;
    assert_eq!(carrier.into_unchecked().as_signature().contribution_count(), 1);
}

#[test]
fn aggregate_counts_distinct_participants_only() {
    let kc = keychain(0, 2);
    let sig_0 = TestSignature { msg: vec![1], index: NodeIndex(0) };
    let mut aggregate = kc.from_signature(&sig_0, NodeIndex(0));
    assert_eq!(aggregate.contribution_count(), 1);
    // A repeated contribution for the same index replaces, not grows.
    aggregate.add_signature(&sig_0, NodeIndex(0));
    assert_eq!(aggregate.contribution_count(), 1);
    assert!(!kc.is_complete(&aggregate));
    let sig_1 = TestSignature { msg: vec![1], index: NodeIndex(1) };
    aggregate.add_signature(&sig_1, NodeIndex(1));
    assert_eq!(aggregate.contribution_count(), 2);
    assert!(kc.is_complete(&aggregate));
}

#[test]
fn a_later_contribution_for_an_index_overrides_the_earlier_one() {
    let kc = keychain(0, 1);
    let msg_bytes: &[u8] = &[3, 3];
    let good = TestSignature { msg: msg_bytes.to_vec(), index: NodeIndex(0) };
    let bad = TestSignature { msg: vec![0], index: NodeIndex(0) };

    // Stale invalid entry overridden by a valid one: the aggregate verifies.
    let mut aggregate = kc.from_signature(&bad, NodeIndex(0));
    aggregate.add_signature(&good, NodeIndex(0));
    assert!(kc.verify_partial(msg_bytes, &aggregate));

    // Valid entry overridden by an invalid one: the aggregate fails.
    let mut aggregate = kc.from_signature(&good, NodeIndex(0));
    aggregate.add_signature(&bad, NodeIndex(0));
    assert!(!kc.verify_partial(msg_bytes, &aggregate));
}

#[test]
fn single_signature_verification_primitives() {
    let kc = keychain(4, 1);
    let bytes: &[u8] = &[9, 8, 7];
    let sgn = kc.sign(bytes);
    assert!(kc.verify(bytes, &sgn, NodeIndex(4)));
    assert!(!kc.verify(bytes, &sgn, NodeIndex(5)));
    assert!(!kc.verify(&[9, 8], &sgn, NodeIndex(4)));
}

#[test]
fn signed_clone_and_from_conversion() {
    let kc = keychain(0, 1);
    let msg = message(&[11, 12], 0);
    let signed = Signed::sign(&kc, msg.clone());
    let copy = signed.clone();
    assert_eq!(copy.as_signable(), &msg);
    let unchecked: UncheckedSigned<TestMessage, TestSignature> = UncheckedSigned::from(signed);
    assert_eq!(unchecked.as_signable(), &msg);
    let reclaimed: TestMultisignature =
        kc.from_signature(unchecked.as_signature(), NodeIndex(0));
    assert_eq!(reclaimed.contribution_count(), 1);
}

#[test]
fn multisigned_exposes_carrier_and_payload() {
    let kc0 = keychain(0, 1);
    let msg = message(&[13], 0);
    let partial = PartiallyMultisigned::sign(msg.clone(), &kc0);
    let multisigned = ok_or_panic(partial.try_into_complete(&kc0), "quorum of one");
    assert_eq!(multisigned.as_signable(), &msg);
    let carrier = multisigned.into_unchecked();
    assert_eq!(carrier.as_signable(), &msg);
    assert!(kc0.verify_partial(&[13], carrier.as_signature()));
}
