//! A complete, executable keying capability for exercising the library: a
//! signature is modelled as a copy of the signed bytes plus the signer's
//! index, verification compares both, and an aggregate is complete once it
//! holds contributions from enough distinct participants. The trait laws of
//! [`crate::signed::MultiKeychain`] are proved, not assumed, for this
//! scheme.

use crate::nodes::{Index, NodeIndex};
use crate::signed::{bytes_eq, KeyBox, MultiKeychain, PartialMultisignature, Signable};
use vstd::prelude::*;
use vstd::set::axiom_set_insert_len;

verus! {

/// An individual signature of the test scheme: a copy of the signed message
/// bytes together with the signer's index. It is valid for exactly that
/// message and that index, so changing any byte of it, or checking it
/// against another index, makes verification fail.
#[derive(PartialEq, Eq, Debug)]
pub struct TestSignature {
    pub msg: Vec<u8>,
    pub index: NodeIndex,
}

impl View for TestSignature {
    type V = (Seq<u8>, NodeIndex);

    open spec fn view(&self) -> (Seq<u8>, NodeIndex) {
        (self.msg@, self.index)
    }
}

impl Clone for TestSignature {
    fn clone(&self) -> (r: Self)
        ensures
            r@ == self@,
    {
        TestSignature { msg: vstd::slice::slice_to_vec(self.msg.as_slice()), index: self.index }
    }
}

/// The aggregate content described by a list of (index, signature value)
/// contributions: each participant index maps to the signature contributed
/// for it last.
pub open spec fn aggregate_of(entries: Seq<(NodeIndex, (Seq<u8>, NodeIndex))>) -> Map<
    NodeIndex,
    (Seq<u8>, NodeIndex),
>
    decreases entries.len(),
{
    if entries.len() == 0 {
        Map::empty()
    } else {
        aggregate_of(entries.drop_last()).insert(entries.last().0, entries.last().1)
    }
}

/// The position of the last contribution for `i` in `entries`, or -1 if
/// there is none.
pub open spec fn last_for(entries: Seq<(NodeIndex, (Seq<u8>, NodeIndex))>, i: NodeIndex) -> int
    decreases entries.len(),
{
    if entries.len() == 0 {
        -1
    } else if entries.last().0 == i {
        entries.len() - 1
    } else {
        last_for(entries.drop_last(), i)
    }
}

/// How [`aggregate_of`] reads a contribution list: a participant index is
/// in the aggregate exactly if it has a contribution, its signature is the
/// one contributed for it last, and the aggregate's domain is finite.
pub proof fn lemma_aggregate_of(entries: Seq<(NodeIndex, (Seq<u8>, NodeIndex))>, i: NodeIndex)
    ensures
        -1 <= last_for(entries, i) < entries.len(),
        aggregate_of(entries).dom().contains(i) <==> last_for(entries, i) >= 0,
        last_for(entries, i) >= 0 ==> last_for(entries, i) < entries.len() && entries[last_for(
            entries,
            i,
        )].0 == i && aggregate_of(entries)[i] == entries[last_for(entries, i)].1,
        forall|k: int| last_for(entries, i) < k < entries.len() ==> (#[trigger] entries[k]).0 != i,
        aggregate_of(entries).dom().finite(),
    decreases entries.len(),
{
    if entries.len() > 0 {
        let dl = entries.drop_last();
        lemma_aggregate_of(dl, i);
        assert(forall|k: int| 0 <= k < entries.len() - 1 ==> #[trigger] entries[k] == dl[k]);
        assert forall|k: int|
            last_for(entries, i) < k < entries.len() implies (#[trigger] entries[k]).0 != i by {
            if entries.last().0 != i && k < entries.len() - 1 {
                assert(entries[k] == dl[k]);
            }
        }
    }
}

/// A partial multisignature of the test scheme: the list of contributions
/// absorbed so far, in arrival order. A later contribution for a
/// participant index replaces the earlier one in the aggregate's abstract
/// content, as `Map::insert` does.
#[derive(PartialEq, Eq, Debug)]
pub struct TestMultisignature {
    sigs: Vec<(NodeIndex, TestSignature)>,
}

impl TestMultisignature {
    /// The contribution list, with each signature read as its mathematical
    /// value.
    pub closed spec fn entries(self) -> Seq<(NodeIndex, (Seq<u8>, NodeIndex))> {
        self.sigs@.map_values(|p: (NodeIndex, TestSignature)| (p.0, p.1@))
    }
}

impl View for TestMultisignature {
    type V = Map<NodeIndex, (Seq<u8>, NodeIndex)>;

    open spec fn view(&self) -> Map<NodeIndex, (Seq<u8>, NodeIndex)> {
        aggregate_of(self.entries())
    }
}

impl Clone for TestMultisignature {
    fn clone(&self) -> (r: Self)
        ensures
            r@ == self@,
    {
        let mut sigs: Vec<(NodeIndex, TestSignature)> = Vec::new();
        let mut k: usize = 0;
        while k < self.sigs.len()
            invariant
                k <= self.sigs@.len(),
                sigs@.len() == k,
                forall|j: int|
                    0 <= j < k ==> (#[trigger] sigs@[j]).0 == self.sigs@[j].0 && sigs@[j].1@
                        == self.sigs@[j].1@,
            decreases self.sigs@.len() - k,
        {
            let entry = &self.sigs[k];
            sigs.push((entry.0, entry.1.clone()));
            k += 1;
        }
        let r = TestMultisignature { sigs };
        proof {
            assert(r.entries() =~= self.entries());
        }
        r
    }
}

impl PartialMultisignature for TestMultisignature {
    type Signature = TestSignature;

    open spec fn contributions(&self) -> Map<NodeIndex, (Seq<u8>, NodeIndex)> {
        aggregate_of(self.entries())
    }

    fn add_signature(&mut self, signature: &TestSignature, index: NodeIndex) {
        self.sigs.push((index, signature.clone()));
        proof {
            assert(self.entries() =~= old(self).entries().push((index, signature@)));
            assert(self.entries().drop_last() =~= old(self).entries());
        }
    }
}

impl TestMultisignature {
    /// The number of distinct participant indices with a contribution in
    /// the aggregate.
    pub fn contribution_count(&self) -> (n: usize)
        ensures
            n == self@.dom().len(),
            self@.dom().finite(),
    {
        let mut n: usize = 0;
        let mut k: usize = 0;
        proof {
            assert(self.entries().take(0) =~= Seq::<(NodeIndex, (Seq<u8>, NodeIndex))>::empty());
        }
        while k < self.sigs.len()
            invariant
                k <= self.sigs@.len(),
                self.entries().len() == self.sigs@.len(),
                aggregate_of(self.entries().take(k as int)).dom().finite(),
                n == aggregate_of(self.entries().take(k as int)).dom().len(),
                n <= k,
            decreases self.sigs@.len() - k,
        {
            let idx = self.sigs[k].0;
            let mut found = false;
            let mut j: usize = 0;
            while j < k
                invariant
                    j <= k,
                    k < self.sigs@.len(),
                    self.entries().len() == self.sigs@.len(),
                    idx == self.entries()[k as int].0,
                    found <==> exists|jj: int|
                        0 <= jj < j && (#[trigger] self.entries()[jj]).0 == idx,
                decreases k - j,
            {
                if self.sigs[j].0 == idx {
                    proof {
                        assert(self.entries()[j as int].0 == idx);
                    }
                    found = true;
                }
                j += 1;
            }
            proof {
                let pre = self.entries().take(k as int);
                let post = self.entries().take(k as int + 1);
                assert(post.drop_last() =~= pre);
                assert(post.last() == self.entries()[k as int]);
                lemma_aggregate_of(pre, idx);
                assert(forall|jj: int| 0 <= jj < k ==> #[trigger] pre[jj] == self.entries()[jj]);
                if found {
                    let jj = choose|jj: int|
                        0 <= jj < k && (#[trigger] self.entries()[jj]).0 == idx;
                    assert(pre[jj].0 == idx);
                    if last_for(pre, idx) < jj {
                        assert(pre[jj].0 != idx);
                    }
                    assert(aggregate_of(pre).dom().contains(idx));
                    assert(aggregate_of(post).dom() =~= aggregate_of(pre).dom());
                } else {
                    if last_for(pre, idx) >= 0 {
                        assert(pre[last_for(pre, idx)].0 == idx);
                        assert(self.entries()[last_for(pre, idx)].0 == idx);
                    }
                    assert(!aggregate_of(pre).dom().contains(idx));
                    axiom_set_insert_len(aggregate_of(pre).dom(), idx);
                    assert(aggregate_of(post).dom() =~= aggregate_of(pre).dom().insert(idx));
                }
            }
            if !found {
                n = n + 1;
            }
            k += 1;
        }
        proof {
            assert(self.entries().take(self.sigs@.len() as int) =~= self.entries());
        }
        n
    }
}

/// A test keying capability for one participant of a quorum: it signs under
/// `own_index`, and it deems an aggregate complete once contributions from
/// at least `threshold` distinct participants have been absorbed.
pub struct TestKeychain {
    pub own_index: NodeIndex,
    pub threshold: usize,
}

impl Index for TestKeychain {
    open spec fn index_spec(&self) -> NodeIndex {
        self.own_index
    }

    fn index(&self) -> (i: NodeIndex) {
        self.own_index
    }
}

impl KeyBox for TestKeychain {
    type Signature = TestSignature;

    open spec fn verify_spec(
        &self,
        msg: Seq<u8>,
        sgn: (Seq<u8>, NodeIndex),
        index: NodeIndex,
    ) -> bool {
        sgn.0 == msg && sgn.1 == index
    }

    fn sign(&self, msg: &[u8]) -> (sgn: TestSignature) {
        TestSignature { msg: vstd::slice::slice_to_vec(msg), index: self.own_index }
    }

    fn verify(&self, msg: &[u8], sgn: &TestSignature, index: NodeIndex) -> (r: bool) {
        bytes_eq(msg, sgn.msg.as_slice()) && sgn.index == index
    }
}

impl MultiKeychain for TestKeychain {
    type PartialMultisignature = TestMultisignature;

    open spec fn valid_partial(
        &self,
        msg: Seq<u8>,
        contributions: Map<NodeIndex, (Seq<u8>, NodeIndex)>,
    ) -> bool {
        forall|i: NodeIndex| #[trigger]
            contributions.dom().contains(i) ==> contributions[i] == (msg, i)
    }

    open spec fn complete(
        &self,
        contributions: Map<NodeIndex, (Seq<u8>, NodeIndex)>,
    ) -> bool {
        contributions.dom().finite() && contributions.dom().len() >= self.threshold
    }

    fn from_signature(&self, signature: &TestSignature, index: NodeIndex) -> (r:
        TestMultisignature) {
        let mut sigs: Vec<(NodeIndex, TestSignature)> = Vec::new();
        sigs.push((index, signature.clone()));
        let r = TestMultisignature { sigs };
        proof {
            assert(r.entries() =~= Seq::<(NodeIndex, (Seq<u8>, NodeIndex))>::empty().push(
                (index, signature@),
            ));
            assert(r.entries().drop_last() =~= Seq::<(NodeIndex, (Seq<u8>, NodeIndex))>::empty());
            assert(aggregate_of(Seq::<(NodeIndex, (Seq<u8>, NodeIndex))>::empty())
                == Map::<NodeIndex, (Seq<u8>, NodeIndex)>::empty());
            assert(r.entries().last() == (index, signature@));
        }
        r
    }

    fn is_complete(&self, partial: &TestMultisignature) -> (r: bool) {
        partial.contribution_count() >= self.threshold
    }

    fn verify_partial(&self, msg: &[u8], partial: &TestMultisignature) -> (r: bool) {
        let n = partial.sigs.len();
        let mut k: usize = 0;
        while k < n
            invariant
                k <= n,
                n == partial.sigs@.len(),
                partial.entries().len() == partial.sigs@.len(),
                forall|i: NodeIndex|
                    0 <= #[trigger] last_for(partial.entries(), i) < k as int ==> aggregate_of(
                        partial.entries(),
                    )[i] == (msg@, i),
            decreases n - k,
        {
            let idx = partial.sigs[k].0;
            let mut later = false;
            let mut j: usize = k + 1;
            while j < n
                invariant
                    k < j <= n,
                    n == partial.sigs@.len(),
                    partial.entries().len() == partial.sigs@.len(),
                    idx == partial.entries()[k as int].0,
                    later <==> exists|jj: int|
                        k < jj < j && (#[trigger] partial.entries()[jj]).0 == idx,
                decreases n - j,
            {
                if partial.sigs[j].0 == idx {
                    proof {
                        assert(partial.entries()[j as int].0 == idx);
                    }
                    later = true;
                }
                j += 1;
            }
            if !later {
                proof {
                    lemma_aggregate_of(partial.entries(), idx);
                    let lf = last_for(partial.entries(), idx);
                    if lf < k as int {
                        assert(partial.entries()[k as int].0 != idx);
                    }
                    if lf > k as int {
                        assert(partial.entries()[lf].0 == idx);
                    }
                    assert(lf == k as int);
                    assert(aggregate_of(partial.entries())[idx] == partial.entries()[k as int].1);
                }
                let entry = &partial.sigs[k];
                let msg_matches = bytes_eq(entry.1.msg.as_slice(), msg);
                let index_matches = entry.1.index == idx;
                if !(msg_matches && index_matches) {
                    proof {
                        assert(aggregate_of(partial.entries()).dom().contains(idx));
                        assert(aggregate_of(partial.entries())[idx] != (msg@, idx));
                    }
                    return false;
                }
            }
            proof {
                assert forall|i: NodeIndex|
                    0 <= last_for(partial.entries(), i) < (k + 1) as int implies aggregate_of(
                    partial.entries(),
                )[i] == (msg@, i) by {
                    if last_for(partial.entries(), i) == k as int {
                        lemma_aggregate_of(partial.entries(), i);
                        assert(partial.entries()[k as int].0 == i);
                        assert(i == idx);
                    }
                }
            }
            k += 1;
        }
        proof {
            assert forall|i: NodeIndex| #[trigger]
                aggregate_of(partial.entries()).dom().contains(i) implies aggregate_of(
                partial.entries(),
            )[i] == (msg@, i) by {
                lemma_aggregate_of(partial.entries(), i);
            }
        }
        true
    }

    proof fn lemma_single_valid(
        &self,
        msg: Seq<u8>,
        signature: (Seq<u8>, NodeIndex),
        index: NodeIndex,
    ) {
        let c = Map::<NodeIndex, (Seq<u8>, NodeIndex)>::empty().insert(index, signature);
        assert forall|i: NodeIndex| #[trigger] c.dom().contains(i) implies c[i] == (msg, i) by {
            assert(i == index);
        }
    }

    proof fn lemma_absorb_valid(
        &self,
        msg: Seq<u8>,
        contributions: Map<NodeIndex, (Seq<u8>, NodeIndex)>,
        signature: (Seq<u8>, NodeIndex),
        index: NodeIndex,
    ) {
        let c = contributions.insert(index, signature);
        assert forall|i: NodeIndex| #[trigger] c.dom().contains(i) implies c[i] == (msg, i) by {
            if i != index {
                assert(contributions.dom().contains(i));
            }
        }
    }

    proof fn lemma_complete_monotone(
        &self,
        msg: Seq<u8>,
        contributions: Map<NodeIndex, (Seq<u8>, NodeIndex)>,
        signature: (Seq<u8>, NodeIndex),
        index: NodeIndex,
    ) {
        let c = contributions.insert(index, signature);
        assert(c.dom() =~= contributions.dom().insert(index));
        axiom_set_insert_len(contributions.dom(), index);
    }
}

/// Tamper rejection law of the test scheme: a signature value that differs
/// anywhere — in any byte of its message copy, or in its index field — from
/// one that verifies does not verify for the same message and participant
/// index.
pub proof fn lemma_tamper_rejected(
    keychain: TestKeychain,
    msg: Seq<u8>,
    sgn: (Seq<u8>, NodeIndex),
    tampered: (Seq<u8>, NodeIndex),
    index: NodeIndex,
)
    requires
        keychain.verify_spec(msg, sgn, index),
        tampered != sgn,
    ensures
        !keychain.verify_spec(msg, tampered, index),
{
}

/// Index sensitivity law of the test scheme: a signature that verifies for
/// its true signer index does not verify for any other participant index,
/// even though the signature itself is valid.
pub proof fn lemma_index_sensitive(
    keychain: TestKeychain,
    msg: Seq<u8>,
    sgn: (Seq<u8>, NodeIndex),
    index: NodeIndex,
    other: NodeIndex,
)
    requires
        keychain.verify_spec(msg, sgn, index),
        other != index,
    ensures
        !keychain.verify_spec(msg, sgn, other),
{
}

/// A test payload: its content stands in for its own hash (content
/// addressing), and it reports the index of its claimed signer.
#[derive(PartialEq, Eq, Debug)]
pub struct TestMessage {
    pub content: Vec<u8>,
    pub signer: NodeIndex,
}

impl Signable for TestMessage {
    open spec fn hash_spec(&self) -> Seq<u8> {
        self.content@
    }

    fn hash(&self) -> (h: Vec<u8>) {
        vstd::slice::slice_to_vec(self.content.as_slice())
    }
}

impl Index for TestMessage {
    open spec fn index_spec(&self) -> NodeIndex {
        self.signer
    }

    fn index(&self) -> (i: NodeIndex) {
        self.signer
    }
}

impl Clone for TestMessage {
    fn clone(&self) -> (r: Self)
        ensures
            r.content@ == self.content@,
            r.signer == self.signer,
    {
        TestMessage {
            content: vstd::slice::slice_to_vec(self.content.as_slice()),
            signer: self.signer,
        }
    }
}

} // verus!
