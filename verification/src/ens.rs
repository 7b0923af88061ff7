//! ENS name hashing (EIP-137).
//!
//! A name is hashed on its UTF-8 bytes: it is cut at every `.` byte into
//! labels, and the labels are folded from the last one to the first:
//! `node = keccak(node ++ keccak(label))`, starting from 32 zero bytes.
//! The empty name hashes to 32 zero bytes. Since `.` is ASCII, cutting the
//! UTF-8 bytes at `.` bytes gives the UTF-8 bytes of the `.`-separated
//! pieces of the name.

use vstd::prelude::*;
use vstd::utf8::encode_utf8;
use crate::keccak::{keccak256, keccak_by, KeccakImpl};

verus! {

/// The byte that separates labels.
pub const DOT: u8 = 0x2e;

/// The root node: 32 zero bytes.
pub open spec fn zero_node() -> Seq<u8> {
    Seq::new(32, |i: int| 0u8)
}

/// The labels of `name`, read from left to right: the pieces between `.`
/// bytes. There is always at least one label; empty pieces are kept.
pub open spec fn labels_of(name: Seq<u8>) -> Seq<Seq<u8>>
    decreases name.len(),
{
    if name.len() == 0 {
        seq![Seq::<u8>::empty()]
    } else {
        let prev = labels_of(name.drop_last());
        if name.last() == DOT {
            prev.push(Seq::<u8>::empty())
        } else {
            prev.update(prev.len() - 1, prev.last().push(name.last()))
        }
    }
}

/// The labels joined back together with `.` between neighbours.
pub open spec fn join_labels(labels: Seq<Seq<u8>>) -> Seq<u8>
    decreases labels.len(),
{
    if labels.len() == 0 {
        Seq::<u8>::empty()
    } else if labels.len() == 1 {
        labels[0]
    } else {
        join_labels(labels.drop_last()) + seq![DOT] + labels.last()
    }
}

/// The node of a label list: `labels[0]` is the leftmost (most specific)
/// label, so it is hashed last.
pub open spec fn node_of(labels: Seq<Seq<u8>>, imp: KeccakImpl) -> Seq<u8>
    decreases labels.len(),
{
    if labels.len() == 0 {
        zero_node()
    } else {
        keccak_by(imp, node_of(labels.drop_first(), imp) + keccak_by(imp, labels[0]))
    }
}

/// The ENS namehash of the name whose UTF-8 bytes are `name`.
pub open spec fn namehash_of(name: Seq<u8>, imp: KeccakImpl) -> Seq<u8> {
    if name.len() == 0 {
        zero_node()
    } else {
        node_of(labels_of(name), imp)
    }
}

/// The views of a sequence of byte vectors.
pub open spec fn byte_views(v: Seq<Vec<u8>>) -> Seq<Seq<u8>> {
    v.map_values(|x: Vec<u8>| x@)
}


/// Cuts `name` at every `.` byte. The result has one more element than
/// `name` has `.` bytes; empty pieces (leading, trailing or doubled dots)
/// are kept.
pub fn split_labels(name: &[u8]) -> (labels: Vec<Vec<u8>>)
    ensures
        byte_views(labels@) == labels_of(name@),
{
    let mut done: Vec<Vec<u8>> = Vec::new();
    let mut cur: Vec<u8> = Vec::new();
    let mut i: usize = 0;
    assert(name@.take(0) =~= Seq::<u8>::empty());
    assert(byte_views(done@).push(cur@) =~= seq![Seq::<u8>::empty()]);
    while i < name.len()
        invariant
            i <= name@.len(),
            byte_views(done@).push(cur@) == labels_of(name@.take(i as int)),
        decreases name.len() - i,
    {
        let b = name[i];
        let ghost prev = labels_of(name@.take(i as int));
        assert(name@.take(i + 1).drop_last() =~= name@.take(i as int));
        assert(name@.take(i + 1).last() == b);
        if b == DOT {
            let ghost old_done = done@;
            done.push(cur);
            cur = Vec::new();
            assert(byte_views(done@) =~= byte_views(old_done).push(prev.last()));
            assert(byte_views(done@).push(cur@) =~= prev.push(Seq::<u8>::empty()));
        } else {
            let ghost old_cur = cur@;
            cur.push(b);
            assert(byte_views(done@).push(cur@) =~= prev.update(
                prev.len() - 1,
                prev.last().push(b),
            ));
        }
        i += 1;
    }
    assert(name@.take(i as int) =~= name@);
    let ghost old_done = done@;
    let ghost last = cur@;
    done.push(cur);
    assert(byte_views(done@) =~= byte_views(old_done).push(last));
    done
}

/// The bytes that are hashed to extend `node` by a label whose hash is
/// `label_hash`: the node followed by the label hash.
pub fn node_preimage(node: &[u8; 32], label_hash: &[u8; 32]) -> (out: Vec<u8>)
    ensures
        out@ == node@ + label_hash@,
{
    let mut out: Vec<u8> = Vec::with_capacity(64);
    out.extend_from_slice(node.as_slice());
    out.extend_from_slice(label_hash.as_slice());
    assert(out@ =~= node@ + label_hash@);
    out
}


/// The namehash of the name whose bytes are `name`, with the chosen Keccak
/// implementation.
pub fn namehash_bytes(name: &[u8], imp: KeccakImpl) -> (node: [u8; 32])
    ensures
        node@ == namehash_of(name@, imp),
{
    let mut node: [u8; 32] = [0u8; 32];
    assert(node@ =~= zero_node());
    if name.len() == 0 {
        return node;
    }
    let labels = split_labels(name);
    let ghost all = labels_of(name@);
    let mut i: usize = labels.len();
    assert(all.skip(i as int) =~= Seq::<Seq<u8>>::empty());
    while i > 0
        invariant
            i <= labels@.len(),
            byte_views(labels@) == all,
            all == labels_of(name@),
            node@ == node_of(all.skip(i as int), imp),
        decreases i,
    {
        i -= 1;
        assert(labels@[i as int]@ == all[i as int]);
        let label_hash = keccak256(labels[i].as_slice(), imp);
        let preimage = node_preimage(&node, &label_hash);
        node = keccak256(preimage.as_slice(), imp);
        assert(all.skip(i as int).drop_first() =~= all.skip(i + 1));
    }
    assert(all.skip(0) =~= all);
    node
}

/// The ENS namehash of `name`, hashing with `alloy_primitives::keccak256`.
pub fn namehash(name: String) -> (node: [u8; 32])
    ensures
        node@ == namehash_of(encode_utf8(name@), KeccakImpl::Alloy),
{
    namehash_bytes(name.as_str().as_bytes(), KeccakImpl::Alloy)
}

/// The ENS namehash of `name`, hashing with `sha3::Keccak256`.
pub fn ens_namehash(name: String) -> (node: [u8; 32])
    ensures
        node@ == namehash_of(encode_utf8(name@), KeccakImpl::Sha3),
{
    namehash_bytes(name.as_str().as_bytes(), KeccakImpl::Sha3)
}


/// Every name has at least one label.
pub proof fn lemma_labels_nonempty(name: Seq<u8>)
    ensures
        labels_of(name).len() >= 1,
    decreases name.len(),
{
    if name.len() > 0 {
        lemma_labels_nonempty(name.drop_last());
    }
}

/// The labels of a name are free of `.` bytes and join back, with `.`
/// between neighbours, into the name itself: they are the pieces of the
/// name between its dots.
pub proof fn lemma_labels_partition(name: Seq<u8>)
    ensures
        labels_of(name).len() >= 1,
        join_labels(labels_of(name)) == name,
        forall|i: int| 0 <= i < labels_of(name).len() ==> !(#[trigger] labels_of(name)[i]).contains(DOT),
    decreases name.len(),
{
    lemma_labels_nonempty(name);
    if name.len() == 0 {
        assert(join_labels(labels_of(name)) =~= name);
    } else {
        let init = name.drop_last();
        let c = name.last();
        lemma_labels_partition(init);
        let prev = labels_of(init);
        let cur = labels_of(name);
        if c == DOT {
            assert(cur.drop_last() =~= prev);
            assert(join_labels(cur) =~= name);
            assert forall|i: int| 0 <= i < cur.len() implies !(#[trigger] cur[i]).contains(DOT) by {
                if i < prev.len() {
                    assert(cur[i] == prev[i]);
                } else {
                    assert(cur[i] =~= Seq::<u8>::empty());
                }
            }
        } else {
            let last = prev.last();
            if prev.len() == 1 {
                assert(join_labels(cur) =~= name);
            } else {
                assert(cur.drop_last() =~= prev.drop_last());
                assert(join_labels(prev) == join_labels(prev.drop_last()) + seq![DOT] + last);
                assert(join_labels(cur) == join_labels(prev.drop_last()) + seq![DOT] + last.push(c));
                assert(init.push(c) =~= name);
                assert(join_labels(cur) =~= name);
            }
            assert forall|i: int| 0 <= i < cur.len() implies !(#[trigger] cur[i]).contains(DOT) by {
                if i < prev.len() - 1 {
                    assert(cur[i] == prev[i]);
                } else {
                    assert(cur[i] == last.push(c));
                    assert(!last.contains(DOT));
                    if cur[i].contains(DOT) {
                        let k = choose|k: int| 0 <= k < cur[i].len() && cur[i][k] == DOT;
                        if k < last.len() {
                            assert(last[k] == DOT);
                        }
                    }
                }
            }
        }
    }
}

/// A name without `.` bytes is a single label.
pub proof fn lemma_labels_single(label: Seq<u8>)
    requires
        !label.contains(DOT),
    ensures
        labels_of(label) == seq![label],
    decreases label.len(),
{
    if label.len() == 0 {
        assert(label =~= Seq::<u8>::empty());
        assert(labels_of(label) =~= seq![label]);
    } else {
        let init = label.drop_last();
        if init.contains(DOT) {
            let k = choose|k: int| 0 <= k < init.len() && init[k] == DOT;
            assert(label[k] == DOT);
        }
        lemma_labels_single(init);
        assert(label.last() != DOT);
        assert(init.push(label.last()) =~= label);
        assert(label.drop_last() == init);
        let prev = labels_of(init);
        assert(prev.last() == init);
        assert(prev.len() == 1);
        assert(labels_of(label) == prev.update(0, init.push(label.last())));
        assert(prev.update(0, label) =~= seq![label]);
    }
}

/// Cutting `label.rest` at its dots gives `label` followed by the labels of
/// `rest`.
pub proof fn lemma_labels_cons(label: Seq<u8>, rest: Seq<u8>)
    requires
        !label.contains(DOT),
    ensures
        labels_of(label + seq![DOT] + rest) == seq![label] + labels_of(rest),
    decreases rest.len(),
{
    let name = label + seq![DOT] + rest;
    if rest.len() == 0 {
        lemma_labels_single(label);
        assert(name.drop_last() =~= label);
        assert(labels_of(name) =~= seq![label] + labels_of(rest));
    } else {
        let init = rest.drop_last();
        lemma_labels_cons(label, init);
        lemma_labels_nonempty(init);
        assert(name.drop_last() =~= label + seq![DOT] + init);
        assert(labels_of(name) =~= seq![label] + labels_of(rest));
    }
}

/// EIP-137 recursion: the node of `label.rest`, for a label without dots
/// and a non-empty `rest`, is the hash of the node of `rest` followed by the
/// hash of `label`.
pub proof fn lemma_namehash_recursion(label: Seq<u8>, rest: Seq<u8>, imp: KeccakImpl)
    requires
        !label.contains(DOT),
        rest.len() > 0,
    ensures
        namehash_of(label + seq![DOT] + rest, imp) == keccak_by(
            imp,
            namehash_of(rest, imp) + keccak_by(imp, label),
        ),
{
    lemma_labels_cons(label, rest);
    let labels = seq![label] + labels_of(rest);
    assert(labels.drop_first() =~= labels_of(rest));
    assert((label + seq![DOT] + rest).len() > 0);
}

/// A non-empty name without dots hashes as one label under the root.
pub proof fn lemma_namehash_single_label(label: Seq<u8>, imp: KeccakImpl)
    requires
        !label.contains(DOT),
        label.len() > 0,
    ensures
        namehash_of(label, imp) == keccak_by(imp, zero_node() + keccak_by(imp, label)),
{
    lemma_labels_single(label);
    let labels = seq![label];
    assert(labels.drop_first() =~= Seq::<Seq<u8>>::empty());
    assert(node_of(labels.drop_first(), imp) == zero_node());
    assert(labels[0] == label);
    assert(node_of(labels, imp) == keccak_by(imp, zero_node() + keccak_by(imp, label)));
}

} // verus!
