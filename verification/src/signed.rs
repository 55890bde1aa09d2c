//! The unchecked-signature carrier and the proof-carrying types built from
//! it: a value of [`Signed`], [`PartiallyMultisigned`] or [`Multisigned`]
//! exists only if the corresponding verification (or trusted self-signing)
//! has actually happened, so code consuming signed data cannot compile
//! without it.

use crate::nodes::{Index, NodeIndex};
use vstd::prelude::*;

verus! {

/// The type used as a signature. A signature typically does not contain the
/// index of the node who signed the data. Its view is the mathematical value
/// that the capability contracts speak about.
pub trait Signature: View + Clone + Sized {}

impl<T: View + Clone + Sized> Signature for T {}

/// Abstraction of signing data and verifying signatures. Typically consists
/// of a private key of the node and the public keys of all nodes.
///
/// `verify_spec` is the capability's verification predicate: which
/// (message, signature, index) triples it accepts. The executable `verify`
/// decides exactly that predicate, and `sign` is trusted to produce a
/// signature valid for the capability's own index.
pub trait KeyBox: Index + Sized {
    type Signature: Signature;

    /// The verification predicate, over the signature's mathematical value.
    spec fn verify_spec(
        &self,
        msg: Seq<u8>,
        sgn: <Self::Signature as View>::V,
        index: NodeIndex,
    ) -> bool;

    /// Produce a signature for `msg`, valid for this capability's own index.
    fn sign(&self, msg: &[u8]) -> (sgn: Self::Signature)
        ensures
            self.verify_spec(msg@, sgn@, self.index_spec()),
    ;

    /// Decide whether `sgn` is a valid signature of `msg` by the key with
    /// the given index.
    fn verify(&self, msg: &[u8], sgn: &Self::Signature, index: NodeIndex) -> (r: bool)
        ensures
            r == self.verify_spec(msg@, sgn@, index),
    ;
}

/// A payload that deterministically derives a fixed content hash; identity
/// for signing purposes is this hash, not the payload's full equality.
pub trait Signable: Sized {
    /// The content hash, as seen by contracts.
    spec fn hash_spec(&self) -> Seq<u8>;

    /// The content hash.
    fn hash(&self) -> (h: Vec<u8>)
        ensures
            h@ == self.hash_spec(),
    ;
}

/// A pair consisting of an instance of the `Signable` trait and an
/// (arbitrary) signature, constructed without any validation.
///
/// The methods [`UncheckedSigned::check_with_index`] and
/// [`UncheckedSigned::check`] upgrade this struct to [`Signed`], which
/// guarantees that the signature matches the signed object, and
/// [`UncheckedSigned::check_partial`] upgrades it to
/// [`PartiallyMultisigned`].
pub struct UncheckedSigned<T: Signable, S> {
    signable: T,
    signature: S,
}

/// An individual or partial-aggregate signature failed verification. The
/// rejected carrier is returned unmodified, so no information is lost on a
/// failed check: the caller may retry with a different index, or discard.
pub struct SignatureError<T: Signable, S> {
    unchecked: UncheckedSigned<T, S>,
}

impl<T: Signable, S> SignatureError<T, S> {
    /// The rejected carrier, as seen by contracts.
    pub closed spec fn unchecked_spec(self) -> UncheckedSigned<T, S> {
        self.unchecked
    }

    /// Recover the rejected carrier, unmodified.
    pub fn into_unchecked(self) -> (r: UncheckedSigned<T, S>)
        ensures
            r == self.unchecked_spec(),
    {
        self.unchecked
    }
}

impl<T: Signable, S: Signature> UncheckedSigned<T, S> {
    /// The carried payload, as seen by contracts.
    pub closed spec fn signable_spec(self) -> T {
        self.signable
    }

    /// The carried signature value, as seen by contracts.
    pub closed spec fn signature_spec(self) -> S {
        self.signature
    }

    /// Pair a payload with a signature value of unknown validity. No
    /// validation happens here; the carrier must pass a check before any
    /// proof-carrying type can be built from it.
    pub fn new(signable: T, signature: S) -> (r: Self)
        ensures
            r.signable_spec() == signable,
            r.signature_spec() == signature,
    {
        UncheckedSigned { signable, signature }
    }

    /// Read-only access to the carried payload.
    pub fn as_signable(&self) -> (t: &T)
        ensures
            *t == self.signable_spec(),
    {
        &self.signable
    }

    /// Read-only access to the carried signature value.
    pub fn as_signature(&self) -> (s: &S)
        ensures
            *s == self.signature_spec(),
    {
        &self.signature
    }

    /// Verifies whether the signature matches the key with the given index:
    /// on success the carrier is upgraded to a [`Signed`] borrowing
    /// `key_box`, on failure it is handed back unchanged inside the error.
    pub fn check_with_index<'a, KB: KeyBox<Signature = S>>(
        self,
        key_box: &'a KB,
        index: NodeIndex,
    ) -> (r: Result<Signed<'a, T, KB>, SignatureError<T, S>>)
        ensures
            key_box.verify_spec(self.signable_spec().hash_spec(), self.signature_spec()@, index)
                ==> (r matches Ok(s) && s.unchecked_spec() == self && s.key_box_spec()
                == *key_box && s.index_at() == index && s.wf()),
            !key_box.verify_spec(self.signable_spec().hash_spec(), self.signature_spec()@, index)
                ==> (r matches Err(e) && e.unchecked_spec() == self),
    {
        let h = self.signable.hash();
        if !key_box.verify(h.as_slice(), &self.signature, index) {
            return Err(SignatureError { unchecked: self });
        }
        Ok(Signed { unchecked: self, key_box, index: Ghost(index) })
    }
}

impl<T: Signable + Index, S: Signature> UncheckedSigned<T, S> {
    /// Verifies whether the signature matches the key with the index that
    /// the signed object itself reports.
    pub fn check<'a, KB: KeyBox<Signature = S>>(self, key_box: &'a KB) -> (r: Result<
        Signed<'a, T, KB>,
        SignatureError<T, S>,
    >)
        ensures
            key_box.verify_spec(
                self.signable_spec().hash_spec(),
                self.signature_spec()@,
                self.signable_spec().index_spec(),
            ) ==> (r matches Ok(s) && s.unchecked_spec() == self && s.key_box_spec() == *key_box
                && s.index_at() == self.signable_spec().index_spec() && s.wf()),
            !key_box.verify_spec(
                self.signable_spec().hash_spec(),
                self.signature_spec()@,
                self.signable_spec().index_spec(),
            ) ==> (r matches Err(e) && e.unchecked_spec() == self),
    {
        let index = self.signable.index();
        self.check_with_index(key_box, index)
    }
}

/// A pair consisting of an object and a matching signature.
///
/// An instance of `Signed<'a, T, KB>` stores an object `t: T`, a signature
/// `s: KB::Signature` and a reference `kb: &'a KB`, with the invariant
/// ([`Signed::wf`]) that `kb`'s verification predicate holds for the hash of
/// `t`, the value of `s` and the participant index recorded at construction.
/// The invariant is established once, by [`UncheckedSigned::check_with_index`],
/// [`UncheckedSigned::check`] or [`Signed::sign`], and never re-checked: the
/// type's existence is the proof.
pub struct Signed<'a, T: Signable, KB: KeyBox> {
    unchecked: UncheckedSigned<T, KB::Signature>,
    key_box: &'a KB,
    index: Ghost<NodeIndex>,
}

impl<'a, T: Signable, KB: KeyBox> Signed<'a, T, KB> {
    /// The wrapped carrier, as seen by contracts.
    pub closed spec fn unchecked_spec(self) -> UncheckedSigned<T, KB::Signature> {
        self.unchecked
    }

    /// The borrowed keying capability, as seen by contracts.
    pub closed spec fn key_box_spec(self) -> KB {
        *self.key_box
    }

    /// The participant index against which the signature was verified (or,
    /// for a self-signed value, the capability's own index).
    pub closed spec fn index_at(self) -> NodeIndex {
        self.index@
    }

    /// Type-state invariant: at construction, the capability's verification
    /// predicate held for the payload's hash, the signature and the recorded
    /// participant index.
    pub closed spec fn wf(self) -> bool {
        self.key_box.verify_spec(
            self.unchecked.signable.hash_spec(),
            self.unchecked.signature@,
            self.index@,
        )
    }

    /// Sign a payload with the capability's own key. Verification is
    /// skipped: the capability that signs is trusted to sign validly for
    /// its own index, which its `sign` contract states.
    pub fn sign(key_box: &'a KB, signable: T) -> (r: Self)
        ensures
            r.wf(),
            r.key_box_spec() == *key_box,
            r.unchecked_spec().signable_spec() == signable,
            r.index_at() == key_box.index_spec(),
            key_box.verify_spec(
                signable.hash_spec(),
                r.unchecked_spec().signature_spec()@,
                key_box.index_spec(),
            ),
    {
        let h = signable.hash();
        let signature = key_box.sign(h.as_slice());
        Signed {
            unchecked: UncheckedSigned { signable, signature },
            key_box,
            index: Ghost(key_box.index_spec()),
        }
    }

    /// Downgrade for transport or storage: discards the proof, not the data.
    pub fn into_unchecked(self) -> (r: UncheckedSigned<T, KB::Signature>)
        ensures
            r == self.unchecked_spec(),
    {
        self.unchecked
    }

    /// Read-only access to the wrapped content.
    pub fn as_signable(&self) -> (t: &T)
        ensures
            *t == self.unchecked_spec().signable_spec(),
    {
        &self.unchecked.signable
    }
}

/// A type to which signatures can be aggregated. A single signature can be
/// raised to a partial multisignature, and any signature can be added to
/// one. After sufficiently many signatures have been absorbed, the partial
/// multisignature becomes "complete", which [`MultiKeychain::is_complete`]
/// decides.
///
/// `contributions` is the aggregate's abstract content: which signature
/// value it currently holds for each contributing participant index. The
/// internal bookkeeping behind it is entirely owned by the implementing
/// capability. The signature and the index passed to `add_signature` are
/// required to be valid; the callers below establish that from the
/// type-state invariant of [`Signed`].
pub trait PartialMultisignature: Signature {
    type Signature: Signature;

    /// The aggregate's abstract content, as seen by contracts.
    spec fn contributions(&self) -> Map<NodeIndex, <Self::Signature as View>::V>;

    /// Absorb one individual signature, attributed to `index`.
    fn add_signature(&mut self, signature: &Self::Signature, index: NodeIndex)
        ensures
            final(self).contributions() == old(self).contributions().insert(index, signature@),
    ;
}

/// Extends [`KeyBox`] with multisigning functionality: lifting a single
/// signature to an aggregate, deciding whether an aggregate is a valid
/// partial multisignature over a message, and deciding completeness.
///
/// The three proof obligations at the end are the laws the surrounding
/// system relies on: a valid individual signature lifts to a valid
/// aggregate, absorbing a valid signature preserves validity of the
/// aggregate, and completeness is monotone under absorbing further valid
/// signatures.
pub trait MultiKeychain: KeyBox {
    type PartialMultisignature: PartialMultisignature<Signature = Self::Signature>;

    /// Which aggregate contents this capability deems a valid (not
    /// necessarily complete) partial multisignature over `msg`.
    spec fn valid_partial(
        &self,
        msg: Seq<u8>,
        contributions: Map<NodeIndex, <Self::Signature as View>::V>,
    ) -> bool;

    /// Which aggregate contents have reached quorum completeness.
    spec fn complete(
        &self,
        contributions: Map<NodeIndex, <Self::Signature as View>::V>,
    ) -> bool;

    /// Lift a single signature, attributed to `index`, to an aggregate of
    /// size one.
    fn from_signature(&self, signature: &Self::Signature, index: NodeIndex) -> (r:
        Self::PartialMultisignature)
        ensures
            r.contributions() == Map::<NodeIndex, <Self::Signature as View>::V>::empty().insert(
                index,
                signature@,
            ),
    ;

    /// Decide whether the aggregate has reached quorum completeness.
    fn is_complete(&self, partial: &Self::PartialMultisignature) -> (r: bool)
        ensures
            r == self.complete(partial.contributions()),
    ;

    /// Decide whether the aggregate is a valid partial multisignature over
    /// `msg`.
    fn verify_partial(&self, msg: &[u8], partial: &Self::PartialMultisignature) -> (r: bool)
        ensures
            r == self.valid_partial(msg@, partial.contributions()),
    ;

    /// Law: a valid individual signature lifts to a valid aggregate of size
    /// one.
    proof fn lemma_single_valid(
        &self,
        msg: Seq<u8>,
        signature: <Self::Signature as View>::V,
        index: NodeIndex,
    )
        requires
            self.verify_spec(msg, signature, index),
        ensures
            self.valid_partial(
                msg,
                Map::<NodeIndex, <Self::Signature as View>::V>::empty().insert(index, signature),
            ),
    ;

    /// Law: absorbing a valid individual signature over the same message
    /// preserves validity of the aggregate.
    proof fn lemma_absorb_valid(
        &self,
        msg: Seq<u8>,
        contributions: Map<NodeIndex, <Self::Signature as View>::V>,
        signature: <Self::Signature as View>::V,
        index: NodeIndex,
    )
        requires
            self.valid_partial(msg, contributions),
            self.verify_spec(msg, signature, index),
        ensures
            self.valid_partial(msg, contributions.insert(index, signature)),
    ;

    /// Law: completeness is monotone in the absorbed valid signatures; a
    /// complete, valid aggregate stays complete when a further valid
    /// signature over the same message is absorbed.
    proof fn lemma_complete_monotone(
        &self,
        msg: Seq<u8>,
        contributions: Map<NodeIndex, <Self::Signature as View>::V>,
        signature: <Self::Signature as View>::V,
        index: NodeIndex,
    )
        requires
            self.complete(contributions),
            self.valid_partial(msg, contributions),
            self.verify_spec(msg, signature, index),
        ensures
            self.complete(contributions.insert(index, signature)),
    ;
}

impl<T: Signable, S: PartialMultisignature> UncheckedSigned<T, S> {
    /// Verifies whether the carried value is a valid partial multisignature
    /// over the payload's hash: on success the carrier is upgraded to a
    /// [`PartiallyMultisigned`] borrowing `keychain`, on failure it is
    /// handed back unchanged inside the error.
    pub fn check_partial<'a, MK: MultiKeychain<PartialMultisignature = S> + KeyBox<
        Signature = <S as PartialMultisignature>::Signature,
    >>(
        self,
        keychain: &'a MK,
    ) -> (r: Result<PartiallyMultisigned<'a, T, MK>, SignatureError<T, S>>)
        ensures
            keychain.valid_partial(
                self.signable_spec().hash_spec(),
                self.signature_spec().contributions(),
            ) ==> (r matches Ok(p) && p.unchecked_spec() == self && p.keychain_spec() == *keychain
                && p.wf()),
            !keychain.valid_partial(
                self.signable_spec().hash_spec(),
                self.signature_spec().contributions(),
            ) ==> (r matches Err(e) && e.unchecked_spec() == self),
    {
        let h = self.signable.hash();
        if !keychain.verify_partial(h.as_slice(), &self.signature) {
            return Err(SignatureError { unchecked: self });
        }
        Ok(PartiallyMultisigned { unchecked: self, keychain })
    }
}

/// A payload together with an aggregate that currently verifies as a valid
/// — not necessarily complete — partial multisignature over the payload's
/// hash ([`PartiallyMultisigned::wf`]). It tracks one participant's view of
/// an in-progress quorum certificate: it absorbs further individual
/// signatures in place, each absorption preserving the invariant, until a
/// completeness check promotes it to [`Multisigned`].
pub struct PartiallyMultisigned<'a, T: Signable, MK: MultiKeychain> {
    unchecked: UncheckedSigned<T, MK::PartialMultisignature>,
    keychain: &'a MK,
}

/// A payload together with an aggregate that has reached quorum
/// completeness: the quorum certificate for the payload. Terminal and
/// read-only; it is never downgraded back to [`PartiallyMultisigned`].
pub struct Multisigned<'a, T: Signable, MK: MultiKeychain> {
    unchecked: UncheckedSigned<T, MK::PartialMultisignature>,
    keychain: &'a MK,
}

/// The aggregate verified as a valid partial multisignature but has not yet
/// reached the quorum threshold. Carries the partial proof back unchanged,
/// so the caller can keep accumulating signatures and retry.
pub struct IncompleteMultisignatureError<'a, T: Signable, MK: MultiKeychain> {
    pub partial: PartiallyMultisigned<'a, T, MK>,
}

impl<'a, T: Signable, MK: MultiKeychain> PartiallyMultisigned<'a, T, MK> {
    /// The wrapped carrier, as seen by contracts.
    pub closed spec fn unchecked_spec(self) -> UncheckedSigned<T, MK::PartialMultisignature> {
        self.unchecked
    }

    /// The borrowed multi-keying capability, as seen by contracts.
    pub closed spec fn keychain_spec(self) -> MK {
        *self.keychain
    }

    /// The hash of the carried payload.
    pub open spec fn payload_hash(self) -> Seq<u8> {
        self.unchecked_spec().signable_spec().hash_spec()
    }

    /// The abstract content of the carried aggregate.
    pub open spec fn contributions_spec(self) -> Map<
        NodeIndex,
        <MK::Signature as View>::V,
    > {
        self.unchecked_spec().signature_spec().contributions()
    }

    /// Type-state invariant: the aggregate, as it currently stands,
    /// verifies as a valid partial multisignature over the payload's hash
    /// under the borrowed capability.
    pub open spec fn wf(self) -> bool {
        self.keychain_spec().valid_partial(self.payload_hash(), self.contributions_spec())
    }

    /// Read-only access to the wrapped content.
    pub fn as_signable(&self) -> (t: &T)
        ensures
            *t == self.unchecked_spec().signable_spec(),
    {
        &self.unchecked.signable
    }

    /// Downgrade for transport or storage: discards the proof, not the data.
    pub fn into_unchecked(self) -> (r: UncheckedSigned<T, MK::PartialMultisignature>)
        ensures
            r == self.unchecked_spec(),
    {
        self.unchecked
    }

    /// Self-sign a payload and lift the resulting signature to an aggregate
    /// of size one. Verification is skipped: self-signing is trusted, as in
    /// [`Signed::sign`], and the capability's laws give validity of the
    /// singleton aggregate.
    pub fn sign(signable: T, keychain: &'a MK) -> (r: Self)
        ensures
            r.wf(),
            r.keychain_spec() == *keychain,
            r.unchecked_spec().signable_spec() == signable,
            r.contributions_spec().dom() == Set::<NodeIndex>::empty().insert(
                keychain.index_spec(),
            ),
            keychain.verify_spec(
                signable.hash_spec(),
                r.contributions_spec()[keychain.index_spec()],
                keychain.index_spec(),
            ),
    {
        let h = signable.hash();
        let signature = keychain.sign(h.as_slice());
        let index = keychain.index();
        let multisignature = keychain.from_signature(&signature, index);
        proof {
            keychain.lemma_single_valid(signable.hash_spec(), signature@, keychain.index_spec());
            assert(multisignature.contributions().dom() =~= Set::<NodeIndex>::empty().insert(
                keychain.index_spec(),
            ));
        }
        PartiallyMultisigned {
            unchecked: UncheckedSigned { signable, signature: multisignature },
            keychain,
        }
    }

    /// Absorb one already-verified individual signature into the aggregate.
    ///
    /// Precondition for trust: the signature must be valid for the given
    /// participant index under this capability's verification predicate — a
    /// [`Signed`] value checked or signed under the same predicate
    /// establishes that from its type-state invariant, which is how
    /// re-verifying each contribution is avoided.
    ///
    /// Defensive hash guard: a contribution over a different payload is a
    /// silent no-op — call sites iterate over signatures for possibly
    /// heterogeneous in-flight proposals and must not abort on stale or
    /// foreign contributions. Otherwise the aggregate absorbs exactly this
    /// contribution, the invariant is preserved, and completeness, once
    /// reached, is never lost.
    pub fn add_signature(&mut self, signed: Signed<'a, T, MK>, index: NodeIndex)
        requires
            old(self).wf(),
            old(self).keychain_spec().verify_spec(
                signed.unchecked_spec().signable_spec().hash_spec(),
                signed.unchecked_spec().signature_spec()@,
                index,
            ),
        ensures
            final(self).wf(),
            final(self).keychain_spec() == old(self).keychain_spec(),
            final(self).unchecked_spec().signable_spec()
                == old(self).unchecked_spec().signable_spec(),
            signed.unchecked_spec().signable_spec().hash_spec() != old(self).payload_hash()
                ==> *final(self) == *old(self),
            signed.unchecked_spec().signable_spec().hash_spec() == old(self).payload_hash()
                ==> final(self).contributions_spec() == old(self).contributions_spec().insert(
                index,
                signed.unchecked_spec().signature_spec()@,
            ),
            old(self).keychain_spec().complete(old(self).contributions_spec())
                ==> final(self).keychain_spec().complete(final(self).contributions_spec()),
    {
        let self_hash = self.unchecked.signable.hash();
        let other_hash = signed.as_signable().hash();
        if !bytes_eq(self_hash.as_slice(), other_hash.as_slice()) {
            return;
        }
        proof {
            self.keychain.lemma_absorb_valid(
                self.unchecked.signable.hash_spec(),
                self.unchecked.signature.contributions(),
                signed.unchecked_spec().signature_spec()@,
                index,
            );
            if self.keychain.complete(self.unchecked.signature.contributions()) {
                self.keychain.lemma_complete_monotone(
                    self.unchecked.signable.hash_spec(),
                    self.unchecked.signature.contributions(),
                    signed.unchecked_spec().signature_spec()@,
                    index,
                );
            }
        }
        let signed_unchecked = signed.into_unchecked();
        self.unchecked.signature.add_signature(signed_unchecked.as_signature(), index);
    }

    /// Ask the capability's completeness predicate over the current
    /// aggregate: on success the partial proof is upgraded to
    /// [`Multisigned`], on failure it is handed back unchanged inside the
    /// error, so the caller can keep accumulating signatures and retry.
    pub fn try_into_complete(self, keychain: &'a MK) -> (r: Result<
        Multisigned<'a, T, MK>,
        IncompleteMultisignatureError<'a, T, MK>,
    >)
        requires
            self.wf(),
            *keychain == self.keychain_spec(),
        ensures
            keychain.complete(self.contributions_spec()) ==> (r matches Ok(m)
                && m.unchecked_spec() == self.unchecked_spec() && m.keychain_spec()
                == self.keychain_spec() && m.wf()),
            !keychain.complete(self.contributions_spec()) ==> (r matches Err(e) && e.partial
                == self),
    {
        if !keychain.is_complete(&self.unchecked.signature) {
            return Err(IncompleteMultisignatureError { partial: self });
        }
        Ok(Multisigned { unchecked: self.unchecked, keychain: self.keychain })
    }
}

impl<'a, T: Signable, MK: MultiKeychain> Multisigned<'a, T, MK> {
    /// The wrapped carrier, as seen by contracts.
    pub closed spec fn unchecked_spec(self) -> UncheckedSigned<T, MK::PartialMultisignature> {
        self.unchecked
    }

    /// The borrowed multi-keying capability, as seen by contracts.
    pub closed spec fn keychain_spec(self) -> MK {
        *self.keychain
    }

    /// Type-state invariant: the aggregate satisfies the capability's
    /// completeness predicate and verifies over the payload's hash — the
    /// authoritative evidence that quorum was reached for this payload.
    pub open spec fn wf(self) -> bool {
        &&& self.keychain_spec().complete(
            self.unchecked_spec().signature_spec().contributions(),
        )
        &&& self.keychain_spec().valid_partial(
            self.unchecked_spec().signable_spec().hash_spec(),
            self.unchecked_spec().signature_spec().contributions(),
        )
    }

    /// Read-only access to the wrapped content.
    pub fn as_signable(&self) -> (t: &T)
        ensures
            *t == self.unchecked_spec().signable_spec(),
    {
        &self.unchecked.signable
    }

    /// Expose the underlying carrier for transport or storage.
    pub fn into_unchecked(self) -> (r: UncheckedSigned<T, MK::PartialMultisignature>)
        ensures
            r == self.unchecked_spec(),
    {
        self.unchecked
    }
}

impl<T: Signable + Clone, S: Signature> Clone for UncheckedSigned<T, S> {
    /// Clone the carrier; what the parts' own `clone` implementations
    /// promise carries over to the copy.
    fn clone(&self) -> (r: Self)
        ensures
            vstd::pervasive::cloned::<T>(self.signable_spec(), r.signable_spec()),
            vstd::pervasive::cloned::<S>(self.signature_spec(), r.signature_spec()),
    {
        UncheckedSigned { signable: self.signable.clone(), signature: self.signature.clone() }
    }
}

impl<'a, T: Signable + Clone, KB: KeyBox> Clone for Signed<'a, T, KB> {
    /// Clone the proof-carrying pair. The copy borrows the same capability
    /// and records the same participant index; what the payload's and the
    /// signature's own `clone` implementations promise carries over.
    fn clone(&self) -> (r: Self)
        ensures
            vstd::pervasive::cloned::<T>(
                self.unchecked_spec().signable_spec(),
                r.unchecked_spec().signable_spec(),
            ),
            vstd::pervasive::cloned::<KB::Signature>(
                self.unchecked_spec().signature_spec(),
                r.unchecked_spec().signature_spec(),
            ),
            r.key_box_spec() == self.key_box_spec(),
            r.index_at() == self.index_at(),
            r.unchecked_spec() == self.unchecked_spec() ==> r.wf() == self.wf(),
    {
        Signed {
            unchecked: UncheckedSigned {
                signable: self.unchecked.signable.clone(),
                signature: self.unchecked.signature.clone(),
            },
            key_box: self.key_box,
            index: self.index,
        }
    }
}

impl<'a, T: Signable, KB: KeyBox> From<Signed<'a, T, KB>> for UncheckedSigned<T, KB::Signature> {
    /// Downgrade for transport or storage, as [`Signed::into_unchecked`].
    fn from(signed: Signed<'a, T, KB>) -> (r: Self) {
        signed.into_unchecked()
    }
}

impl<'a, T: Signable, KB: KeyBox> vstd::std_specs::convert::FromSpecImpl<Signed<'a, T, KB>> for UncheckedSigned<T, KB::Signature> {
    open spec fn obeys_from_spec() -> bool {
        true
    }

    open spec fn from_spec(signed: Signed<'a, T, KB>) -> Self {
        signed.unchecked_spec()
    }
}

/// Round trip law: a value self-signed by a capability, once downgraded to
/// its unchecked carrier, passes `check` again under the same capability,
/// provided the payload reports the signer's own index.
///
/// The premises are exactly what [`Signed::sign`] ensures of its result; the
/// conclusion is exactly the condition under which [`UncheckedSigned::check`]
/// promises to return `Ok`, carrying the same payload.
pub proof fn lemma_sign_check_round_trip<'a, T: Signable + Index, KB: KeyBox>(
    signed: Signed<'a, T, KB>,
)
    requires
        signed.wf(),
        signed.index_at() == signed.key_box_spec().index_spec(),
        signed.unchecked_spec().signable_spec().index_spec()
            == signed.key_box_spec().index_spec(),
    ensures
        signed.key_box_spec().verify_spec(
            signed.unchecked_spec().signable_spec().hash_spec(),
            signed.unchecked_spec().signature_spec()@,
            signed.unchecked_spec().signable_spec().index_spec(),
        ),
{
}

/// Byte-for-byte equality of two slices.
pub(crate) fn bytes_eq(a: &[u8], b: &[u8]) -> (r: bool)
    ensures
        r == (a@ == b@),
{
    if a.len() != b.len() {
        proof {
            assert(a@ != b@) by {
                assert(a@.len() != b@.len());
            }
        }
        return false;
    }
    let mut k: usize = 0;
    while k < a.len()
        invariant
            a@.len() == b@.len(),
            k <= a@.len(),
            forall|j: int| 0 <= j < k ==> a@[j] == b@[j],
        decreases a@.len() - k,
    {
        if a[k] != b[k] {
            proof {
                assert(a@ != b@) by {
                    assert(a@[k as int] != b@[k as int]);
                }
            }
            return false;
        }
        k += 1;
    }
    proof {
        assert(a@ =~= b@);
    }
    true
}

} // verus!
