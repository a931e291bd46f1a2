//! Chain storage: an ordered key/value map with a content root.
use vstd::prelude::*;
use crate::codec::{copy_bytes, blake2_256, blake2_256_of, decode_messages, encode_pairs, scale_messages_of, scale_pairs_of};

verus! {

broadcast use crate::codec::lemma_bytes_deep_view;

/// Strict lexicographic order on byte strings.
pub open spec fn lex_lt(a: Seq<u8>, b: Seq<u8>) -> bool
    decreases a.len(),
{
    if a.len() == 0 {
        b.len() > 0
    } else if b.len() == 0 {
        false
    } else if a[0] != b[0] {
        a[0] < b[0]
    } else {
        lex_lt(a.drop_first(), b.drop_first())
    }
}

pub proof fn lemma_lex_irreflexive(a: Seq<u8>)
    ensures
        !lex_lt(a, a),
    decreases a.len(),
{
    if a.len() > 0 {
        lemma_lex_irreflexive(a.drop_first());
    }
}

pub proof fn lemma_lex_transitive(a: Seq<u8>, b: Seq<u8>, c: Seq<u8>)
    requires
        lex_lt(a, b),
        lex_lt(b, c),
    ensures
        lex_lt(a, c),
    decreases a.len(),
{
    if a.len() > 0 && b.len() > 0 && c.len() > 0 && a[0] == b[0] && b[0] == c[0] {
        lemma_lex_transitive(a.drop_first(), b.drop_first(), c.drop_first());
    }
}

/// Keys strictly increase along the sequence (so each key occurs once).
pub open spec fn sorted_keys(s: Seq<(Seq<u8>, Seq<u8>)>) -> bool {
    forall|i: int, j: int| 0 <= i < j < s.len() ==> lex_lt(#[trigger] s[i].0, #[trigger] s[j].0)
}

/// An index at which `k` stands as a key, where there is one.
pub open spec fn key_index(s: Seq<(Seq<u8>, Seq<u8>)>, k: Seq<u8>) -> int {
    choose|i: int| 0 <= i < s.len() && s[i].0 == k
}

/// The map that a sequence of distinct-keyed pairs stands for.
pub open spec fn map_of(s: Seq<(Seq<u8>, Seq<u8>)>) -> Map<Seq<u8>, Seq<u8>> {
    Map::new(
        |k: Seq<u8>| exists|i: int| 0 <= i < s.len() && s[i].0 == k,
        |k: Seq<u8>| s[key_index(s, k)].1,
    )
}

/// The map built by inserting the pairs in order: a later pair overrides an earlier one.
pub open spec fn pairs_map(p: Seq<(Seq<u8>, Seq<u8>)>) -> Map<Seq<u8>, Seq<u8>>
    decreases p.len(),
{
    if p.len() == 0 {
        Map::empty()
    } else {
        pairs_map(p.drop_last()).insert(p.last().0, p.last().1)
    }
}

/// One storage change: `Some(v)` writes `v` under the key, `None` removes the key.
pub open spec fn change_applied(m: Map<Seq<u8>, Seq<u8>>, c: (Seq<u8>, Option<Seq<u8>>)) -> Map<
    Seq<u8>,
    Seq<u8>,
> {
    match c.1 {
        Some(v) => m.insert(c.0, v),
        None => m.remove(c.0),
    }
}

/// The changes applied in order.
pub open spec fn changes_applied(
    m: Map<Seq<u8>, Seq<u8>>,
    cs: Seq<(Seq<u8>, Option<Seq<u8>>)>,
) -> Map<Seq<u8>, Seq<u8>>
    decreases cs.len(),
{
    if cs.len() == 0 {
        m
    } else {
        change_applied(changes_applied(m, cs.drop_last()), cs.last())
    }
}

proof fn lemma_map_of_index(s: Seq<(Seq<u8>, Seq<u8>)>, i: int)
    requires
        sorted_keys(s),
        0 <= i < s.len(),
    ensures
        map_of(s).dom().contains(s[i].0),
        map_of(s)[s[i].0] == s[i].1,
{
    let k = s[i].0;
    assert(exists|j: int| 0 <= j < s.len() && s[j].0 == k);
    assert(map_of(s).dom().contains(k));
    let j = key_index(s, k);
    if j < i {
        assert(lex_lt(s[j].0, s[i].0));
        lemma_lex_irreflexive(k);
    } else if i < j {
        assert(lex_lt(s[i].0, s[j].0));
        lemma_lex_irreflexive(k);
    }
    assert(j == i);
    assert(map_of(s)[k] == s[j].1);
}

/// The key-sorted pairs that stand for a map.
pub open spec fn sorted_pairs_of(m: Map<Seq<u8>, Seq<u8>>) -> Seq<(Seq<u8>, Seq<u8>)> {
    choose|s: Seq<(Seq<u8>, Seq<u8>)>| sorted_keys(s) && map_of(s) == m
}

/// The content root of a storage map: blake2-256 of the SCALE encoding of its pairs in key order.
pub open spec fn root_of_map(m: Map<Seq<u8>, Seq<u8>>) -> Seq<u8> {
    blake2_256_of(scale_pairs_of(sorted_pairs_of(m)))
}

/// Key under which the chain keeps the current block time, in milliseconds.
pub open spec fn timestamp_key() -> Seq<u8> {
    seq![58u8, 116u8, 105u8, 109u8, 101u8]
}

/// Key under which the chain keeps the messages addressed to workers at this block.
pub open spec fn mq_key() -> Seq<u8> {
    seq![58u8, 109u8, 113u8]
}

/// Prefix of the keys that record registered workers by public key.
pub open spec fn worker_prefix() -> Seq<u8> {
    seq![58u8, 119u8, 107u8, 58u8]
}

/// Prefix of the keys that record when an enclave build (by measurement hash) was accepted.
pub open spec fn bin_added_prefix() -> Seq<u8> {
    seq![58u8, 98u8, 105u8, 110u8, 58u8]
}

fn timestamp_key_vec() -> (r: Vec<u8>)
    ensures
        r@ == timestamp_key(),
{
    let r = vec![58u8, 116u8, 105u8, 109u8, 101u8];
    assert(r@ =~= timestamp_key());
    r
}

fn mq_key_vec() -> (r: Vec<u8>)
    ensures
        r@ == mq_key(),
{
    let r = vec![58u8, 109u8, 113u8];
    assert(r@ =~= mq_key());
    r
}

fn prefixed(prefix: Vec<u8>, rest: &[u8]) -> (r: Vec<u8>)
    ensures
        r@ == prefix@ + rest@,
{
    let mut r = prefix;
    let mut i: usize = 0;
    while i < rest.len()
        invariant
            i <= rest@.len(),
            r@ == prefix@ + rest@.subrange(0, i as int),
        decreases rest@.len() - i,
    {
        r.push(rest[i]);
        i += 1;
        assert(r@ =~= prefix@ + rest@.subrange(0, i as int));
    }
    assert(rest@.subrange(0, rest@.len() as int) =~= rest@);
    r
}

/// Prefix of the keys under which the chain records, per origin, the sequence number of the
/// next outbound message it expects.
pub open spec fn ingress_prefix() -> Seq<u8> {
    seq![58u8, 115u8, 101u8, 113u8, 58u8]
}

/// Key recording the next expected sequence number of an origin.
pub open spec fn ingress_key(origin: Seq<u8>) -> Seq<u8> {
    ingress_prefix() + origin
}

/// The next sequence number the chain expects from an origin, 0 where none is recorded.
pub open spec fn stored_ingress_sequence(m: Map<Seq<u8>, Seq<u8>>, origin: Seq<u8>) -> u64 {
    if m.dom().contains(ingress_key(origin)) {
        match u64_from(m[ingress_key(origin)]) {
            Some(n) => n,
            None => 0,
        }
    } else {
        0
    }
}

/// Key recording a registered worker.
pub open spec fn worker_key(pubkey: Seq<u8>) -> Seq<u8> {
    worker_prefix() + pubkey
}

/// Key recording the acceptance time of an enclave build.
pub open spec fn bin_added_key(measurement_hash: Seq<u8>) -> Seq<u8> {
    bin_added_prefix() + measurement_hash
}

/// The value of the first eight bytes read as a little-endian u64, if there are eight.
pub open spec fn u64_from(b: Seq<u8>) -> Option<u64> {
    if b.len() >= 8 {
        Some(crate::codec::le_value(b.subrange(0, 8)) as u64)
    } else {
        None
    }
}

/// Relies on parity_scale_codec's `Decode` for `u64`: eight bytes, little-endian.
#[verifier::external_body]
fn decode_u64(bytes: &[u8]) -> (r: Option<u64>)
    ensures
        r == u64_from(bytes@),
{
    let mut input = bytes;
    <u64 as parity_scale_codec::Decode>::decode(&mut input).ok()
}

/// A message that the chain addressed to workers.
pub struct Message {
    pub sender: Vec<u8>,
    pub destination: Vec<u8>,
    pub payload: Vec<u8>,
}

impl Message {
    pub open spec fn view(&self) -> (Seq<u8>, Seq<u8>, Seq<u8>) {
        (self.sender@, self.destination@, self.payload@)
    }
}

pub open spec fn messages_view(m: Seq<Message>) -> Seq<(Seq<u8>, Seq<u8>, Seq<u8>)> {
    m.map_values(|x: Message| x.view())
}

/// The messages stored under `mq_key()` in a storage map, empty where there are none or they
/// do not decode.
pub open spec fn stored_messages(m: Map<Seq<u8>, Seq<u8>>) -> Seq<(Seq<u8>, Seq<u8>, Seq<u8>)> {
    if m.dom().contains(mq_key()) {
        match scale_messages_of(m[mq_key()]) {
            Some(msgs) => msgs,
            None => Seq::empty(),
        }
    } else {
        Seq::empty()
    }
}

/// The block time recorded in a storage map, 0 where none is.
pub open spec fn stored_timestamp(m: Map<Seq<u8>, Seq<u8>>) -> u64 {
    if m.dom().contains(timestamp_key()) {
        match u64_from(m[timestamp_key()]) {
            Some(t) => t,
            None => 0,
        }
    } else {
        0
    }
}

/// The acceptance time of an enclave build recorded in a storage map.
pub open spec fn stored_bin_added_at(m: Map<Seq<u8>, Seq<u8>>, hash: Seq<u8>) -> Option<u64> {
    if m.dom().contains(bin_added_key(hash)) {
        u64_from(m[bin_added_key(hash)])
    } else {
        None
    }
}

/// Ordered key/value snapshot of on-chain storage.
pub struct ChainStorage {
    entries: Vec<(Vec<u8>, Vec<u8>)>,
    proof_nodes: Vec<Vec<u8>>,
}

impl ChainStorage {
    /// The entries in key order.
    pub closed spec fn pairs(self) -> Seq<(Seq<u8>, Seq<u8>)> {
        self.entries.deep_view()
    }

    /// Nodes of storage proofs loaded so far.
    pub closed spec fn proofs(self) -> Seq<Seq<u8>> {
        self.proof_nodes.deep_view()
    }

    pub open spec fn view(self) -> Map<Seq<u8>, Seq<u8>> {
        map_of(self.pairs())
    }

    /// The content root: blake2-256 of the SCALE encoding of the entries in key order.
    pub open spec fn root_spec(self) -> Seq<u8> {
        blake2_256_of(scale_pairs_of(self.pairs()))
    }

    /// Keys strictly increase along the entries; every value of this type keeps it.
    pub open spec fn wf(self) -> bool {
        sorted_keys(self.pairs())
    }

    /// Two storages with the same contents hold the same entries, so they have the same root.
    pub proof fn lemma_root_by_content(a: ChainStorage, b: ChainStorage)
        requires
            a.wf(),
            b.wf(),
            a@ == b@,
        ensures
            a.pairs() == b.pairs(),
            a.root_spec() == b.root_spec(),
    {
        lemma_sorted_unique(a.pairs(), b.pairs());
    }

    /// The root of a storage is the root of its contents.
    pub proof fn lemma_root_of_map(st: ChainStorage)
        requires
            st.wf(),
        ensures
            st.root_spec() == root_of_map(st@),
    {
        let s = sorted_pairs_of(st@);
        assert(sorted_keys(st.pairs()) && map_of(st.pairs()) == st@);
        lemma_sorted_unique(s, st.pairs());
    }

    /// A copy with the same entries and proof nodes.
    pub fn duplicate(&self) -> (r: ChainStorage)
        requires
            self.wf(),
        ensures
            r.pairs() == self.pairs(),
            r.proofs() == self.proofs(),
            r@ == self@,
            r.wf(),
    {
        let mut entries: Vec<(Vec<u8>, Vec<u8>)> = Vec::new();
        let mut i: usize = 0;
        while i < self.entries.len()
            invariant
                i <= self.pairs().len(),
                self.pairs() == self.entries.deep_view(),
                entries@.len() == i,
                entries.deep_view() == self.pairs().subrange(0, i as int),
            decreases self.pairs().len() - i,
        {
            let e = (copy_bytes(self.entries[i].0.as_slice()), copy_bytes(self.entries[i].1.as_slice()));
            entries.push(e);
            assert(entries@[i as int].deep_view() == self.pairs()[i as int]);
            assert(entries.deep_view() =~= self.pairs().subrange(0, i + 1));
            i += 1;
        }
        let mut nodes: Vec<Vec<u8>> = Vec::new();
        let mut j: usize = 0;
        while j < self.proof_nodes.len()
            invariant
                j <= self.proofs().len(),
                self.proofs() == self.proof_nodes.deep_view(),
                nodes@.len() == j,
                nodes.deep_view() == self.proofs().subrange(0, j as int),
            decreases self.proofs().len() - j,
        {
            nodes.push(copy_bytes(self.proof_nodes[j].as_slice()));
            assert(nodes@[j as int].deep_view() == self.proofs()[j as int]);
            assert(nodes.deep_view() =~= self.proofs().subrange(0, j + 1));
            j += 1;
        }
        assert(self.pairs().subrange(0, self.pairs().len() as int) =~= self.pairs());
        assert(self.proofs().subrange(0, self.proofs().len() as int) =~= self.proofs());
        ChainStorage { entries, proof_nodes: nodes }
    }

    pub fn new() -> (r: ChainStorage)
        ensures
            r@ == Map::<Seq<u8>, Seq<u8>>::empty(),
            r.proofs().len() == 0,
            r.wf(),
    {
        let r = ChainStorage { entries: Vec::new(), proof_nodes: Vec::new() };
        assert(r@ =~= Map::<Seq<u8>, Seq<u8>>::empty());
        r
    }

    /// Storage holding the given pairs; of two pairs with one key the later wins.
    pub fn from_pairs(pairs: Vec<(Vec<u8>, Vec<u8>)>) -> (r: ChainStorage)
        ensures
            r@ == pairs_map(pairs.deep_view()),
            r.proofs().len() == 0,
            r.wf(),
    {
        let mut r = ChainStorage::new();
        let ghost all = pairs.deep_view();
        let mut i: usize = 0;
        while i < pairs.len()
            invariant
                all == pairs.deep_view(),
                i <= all.len(),
                r@ == pairs_map(all.subrange(0, i as int)),
                r.proofs().len() == 0,
                r.wf(),
            decreases all.len() - i,
        {
            let k = copy_bytes(pairs[i].0.as_slice());
            let v = copy_bytes(pairs[i].1.as_slice());
            r.set(k, v);
            proof {
                assert(all.subrange(0, i + 1).drop_last() =~= all.subrange(0, i as int));
            }
            i += 1;
        }
        assert(all.subrange(0, all.len() as int) =~= all);
        r
    }

    /// Index of the first entry whose key is not below `key`, and whether it equals `key`.
    fn find(&self, key: &[u8]) -> (r: (usize, bool))
        requires
            self.wf(),
        ensures
            r.0 <= self.pairs().len(),
            forall|i: int| 0 <= i < r.0 ==> lex_lt(#[trigger] self.pairs()[i].0, key@),
            r.1 ==> r.0 < self.pairs().len() && self.pairs()[r.0 as int].0 == key@,
            !r.1 ==> forall|i: int|
                r.0 <= i < self.pairs().len() ==> lex_lt(key@, #[trigger] self.pairs()[i].0),
    {
        let mut i: usize = 0;
        while i < self.entries.len()
            invariant
                i <= self.pairs().len(),
                self.pairs() == self.entries.deep_view(),
                sorted_keys(self.pairs()),
                forall|j: int| 0 <= j < i ==> lex_lt(#[trigger] self.pairs()[j].0, key@),
            decreases self.pairs().len() - i,
        {
            let c = compare(self.entries[i].0.as_slice(), key);
            assert(self.pairs()[i as int].0 == self.entries@[i as int].0@);
            if c == 0 {
                return (i, true);
            }
            if c > 0 {
                proof {
                    assert forall|j: int| i <= j < self.pairs().len() implies lex_lt(
                        key@,
                        #[trigger] self.pairs()[j].0,
                    ) by {
                        if j > i {
                            lemma_lex_transitive(key@, self.pairs()[i as int].0, self.pairs()[j].0);
                        }
                    }
                }
                return (i, false);
            }
            i += 1;
        }
        (i, false)
    }

    /// Looks a key up.
    pub fn get(&self, key: &[u8]) -> (r: Option<&Vec<u8>>)
        requires
            self.wf(),
        ensures
            r.is_some() == self@.dom().contains(key@),
            r.is_some() ==> r.unwrap()@ == self@[key@],
    {
        let (i, found) = self.find(key);
        if found {
            proof {
                lemma_map_of_index(self.pairs(), i as int);
            }
            Some(&self.entries[i].1)
        } else {
            proof {
                if self@.dom().contains(key@) {
                    let j = choose|j: int| 0 <= j < self.pairs().len() && self.pairs()[j].0 == key@;
                    if j < i {
                        lemma_lex_irreflexive(key@);
                    } else {
                        lemma_lex_irreflexive(key@);
                    }
                }
            }
            None
        }
    }

    /// Writes `value` under `key`.
    pub fn set(&mut self, key: Vec<u8>, value: Vec<u8>)
        requires
            old(self).wf(),
        ensures
            final(self)@ == old(self)@.insert(key@, value@),
            final(self).wf(),
            final(self).proofs() == old(self).proofs(),
    {
        let ghost s = self.pairs();
        let ghost k = key@;
        let ghost v = value@;
        let (i, found) = self.find(&key);
        let ghost s2 = if found {
            s.update(i as int, (k, v))
        } else {
            s.insert(i as int, (k, v))
        };
        proof {
            // the new sequence stays sorted
            assert forall|a: int, b: int| 0 <= a < b < s2.len() implies lex_lt(
                #[trigger] s2[a].0,
                #[trigger] s2[b].0,
            ) by {
                if found {
                    if a == i {
                        assert(lex_lt(s[a].0, s[b].0));
                    } else if b == i {
                        assert(lex_lt(s[a].0, s[b].0));
                    }
                } else {
                    if a < i && b < i {
                    } else if a < i && b == i {
                    } else if a < i && b > i {
                        assert(s2[b] == s[b - 1]);
                        assert(lex_lt(s[a].0, s[b - 1].0));
                    } else if a == i {
                        assert(s2[b] == s[b - 1]);
                    } else {
                        assert(s2[a] == s[a - 1]);
                        assert(s2[b] == s[b - 1]);
                    }
                }
            }
            // and stands for the old map with the key written
            let m = map_of(s).insert(k, v);
            assert forall|key2: Seq<u8>| #[trigger] map_of(s2).dom().contains(key2) <==> m.dom().contains(
                key2,
            ) by {
                if map_of(s2).dom().contains(key2) {
                    let j = choose|j: int| 0 <= j < s2.len() && s2[j].0 == key2;
                    if key2 != k {
                        let jj = if found || j < i {
                            j
                        } else {
                            j - 1
                        };
                        assert(s[jj].0 == key2);
                    }
                }
                if m.dom().contains(key2) && key2 != k {
                    let j = choose|j: int| 0 <= j < s.len() && s[j].0 == key2;
                    let jj = if found || j < i {
                        j
                    } else {
                        j + 1
                    };
                    assert(s2[jj].0 == key2);
                }
                if key2 == k {
                    assert(s2[i as int].0 == k);
                }
            }
            assert forall|key2: Seq<u8>| #[trigger] map_of(s2).dom().contains(key2) implies map_of(
                s2,
            )[key2] == m[key2] by {
                let j = choose|j: int| 0 <= j < s2.len() && s2[j].0 == key2;
                lemma_map_of_index(s2, j);
                if key2 != k {
                    let jj = if found || j < i {
                        j
                    } else {
                        j - 1
                    };
                    assert(s2[j] == s[jj]);
                    lemma_map_of_index(s, jj);
                } else {
                    lemma_map_of_index(s2, i as int);
                }
            }
            assert(map_of(s2) =~= m);
        }
        if found {
            self.entries.set(i, (key, value));
        } else {
            self.entries.insert(i, (key, value));
        }
        assert(self.entries.deep_view() =~= s2);
    }

    /// Removes `key`, if present.
    pub fn remove(&mut self, key: &[u8])
        requires
            old(self).wf(),
        ensures
            final(self)@ == old(self)@.remove(key@),
            final(self).wf(),
            final(self).proofs() == old(self).proofs(),
    {
        let ghost s = self.pairs();
        let ghost k = key@;
        let (i, found) = self.find(key);
        if found {
            let ghost s2 = s.remove(i as int);
            proof {
                assert forall|a: int, b: int| 0 <= a < b < s2.len() implies lex_lt(
                    #[trigger] s2[a].0,
                    #[trigger] s2[b].0,
                ) by {
                    let aa = if a < i {
                        a
                    } else {
                        a + 1
                    };
                    let bb = if b < i {
                        b
                    } else {
                        b + 1
                    };
                    assert(lex_lt(s[aa].0, s[bb].0));
                }
                let m = map_of(s).remove(k);
                assert forall|key2: Seq<u8>| #[trigger] map_of(s2).dom().contains(key2) <==> m.dom().contains(
                    key2,
                ) by {
                    if map_of(s2).dom().contains(key2) {
                        let j = choose|j: int| 0 <= j < s2.len() && s2[j].0 == key2;
                        let jj = if j < i {
                            j
                        } else {
                            j + 1
                        };
                        assert(s[jj].0 == key2);
                        if key2 == k {
                            lemma_map_of_index(s, jj);
                            lemma_map_of_index(s, i as int);
                            if jj < i {
                                assert(lex_lt(s[jj].0, s[i as int].0));
                            } else {
                                assert(lex_lt(s[i as int].0, s[jj].0));
                            }
                            lemma_lex_irreflexive(k);
                        }
                    }
                    if m.dom().contains(key2) {
                        let j = choose|j: int| 0 <= j < s.len() && s[j].0 == key2;
                        let jj = if j < i {
                            j
                        } else {
                            j - 1
                        };
                        assert(s2[jj].0 == key2);
                    }
                }
                assert forall|key2: Seq<u8>| #[trigger] map_of(s2).dom().contains(key2) implies map_of(
                    s2,
                )[key2] == m[key2] by {
                    let j = choose|j: int| 0 <= j < s2.len() && s2[j].0 == key2;
                    lemma_map_of_index(s2, j);
                    let jj = if j < i {
                        j
                    } else {
                        j + 1
                    };
                    lemma_map_of_index(s, jj);
                }
                assert(map_of(s2) =~= m);
            }
            self.entries.remove(i);
            assert(self.entries.deep_view() =~= s2);
        } else {
            proof {
                assert forall|key2: Seq<u8>| #[trigger] map_of(s).dom().contains(key2) implies key2 != k by {
                    let j = choose|j: int| 0 <= j < s.len() && s[j].0 == key2;
                    if key2 == k {
                        lemma_lex_irreflexive(k);
                    }
                }
                assert(map_of(s) =~= map_of(s).remove(k));
            }
        }
    }

    /// Applies a block's storage changes in order.
    pub fn apply_changes(&mut self, changes: &Vec<(Vec<u8>, Option<Vec<u8>>)>)
        requires
            old(self).wf(),
        ensures
            final(self)@ == changes_applied(old(self)@, changes.deep_view()),
            final(self).wf(),
            final(self).proofs() == old(self).proofs(),
    {
        let ghost m0 = self@;
        let ghost cs = changes.deep_view();
        let mut i: usize = 0;
        while i < changes.len()
            invariant
                i <= cs.len(),
                cs == changes.deep_view(),
                self@ == changes_applied(m0, cs.subrange(0, i as int)),
                self.wf(),
                self.proofs() == old(self).proofs(),
            decreases cs.len() - i,
        {
            let (k, v) = &changes[i];
            match v {
                Some(v) => self.set(copy_bytes(k.as_slice()), copy_bytes(v.as_slice())),
                None => self.remove(k.as_slice()),
            }
            proof {
                assert(cs.subrange(0, i + 1).drop_last() =~= cs.subrange(0, i as int));
            }
            i += 1;
        }
        assert(cs.subrange(0, cs.len() as int) =~= cs);
    }

    /// Keeps the nodes of a storage proof.
    pub fn load_proof(&mut self, proof: Vec<Vec<u8>>)
        requires
            old(self).wf(),
        ensures
            final(self)@ == old(self)@,
            final(self).wf(),
            final(self).proofs() == old(self).proofs() + proof.deep_view(),
    {
        let mut proof = proof;
        let ghost p = proof.deep_view();
        let ghost start = self.proofs();
        self.proof_nodes.append(&mut proof);
        assert(self.proofs() =~= start + p);
    }

    /// The content root.
    pub fn root(&self) -> (r: Vec<u8>)
        requires
            self.wf(),
        ensures
            r@ == self.root_spec(),
            r@.len() == 32,
    {
        let encoded = encode_pairs(&self.entries);
        blake2_256(encoded.as_slice())
    }

    /// The block time in milliseconds, 0 where none is stored.
    pub fn timestamp_now(&self) -> (r: u64)
        requires
            self.wf(),
        ensures
            r == stored_timestamp(self@),
    {
        let key = timestamp_key_vec();
        match self.get(key.as_slice()) {
            Some(v) => match decode_u64(v.as_slice()) {
                Some(t) => t,
                None => 0,
            },
            None => 0,
        }
    }

    /// The messages addressed to workers at this block.
    pub fn mq_messages(&self) -> (r: Vec<Message>)
        requires
            self.wf(),
        ensures
            messages_view(r@) == stored_messages(self@),
    {
        let key = mq_key_vec();
        let mut out: Vec<Message> = Vec::new();
        match self.get(key.as_slice()) {
            Some(v) => match decode_messages(v.as_slice()) {
                Some(msgs) => {
                    let ghost d = msgs.deep_view();
                    let mut i: usize = 0;
                    while i < msgs.len()
                        invariant
                            d == msgs.deep_view(),
                            i <= d.len(),
                            messages_view(out@) =~= d.subrange(0, i as int),
                        decreases d.len() - i,
                    {
                        let m = Message {
                            sender: copy_bytes(msgs[i].0.as_slice()),
                            destination: copy_bytes(msgs[i].1.as_slice()),
                            payload: copy_bytes(msgs[i].2.as_slice()),
                        };
                        let ghost before = out@;
                        assert(m.view() == d[i as int]);
                        out.push(m);
                        assert(messages_view(out@) =~= messages_view(before).push(m.view()));
                        assert(d.subrange(0, i + 1) =~= d.subrange(0, i as int).push(d[i as int]));
                        i += 1;
                    }
                    assert(d.subrange(0, d.len() as int) =~= d);
                },
                None => {},
            },
            None => {},
        }
        out
    }

    /// The next sequence number the chain expects from `origin`.
    pub fn get_ingress_sequence(&self, origin: &[u8]) -> (r: u64)
        requires
            self.wf(),
        ensures
            r == stored_ingress_sequence(self@, origin@),
    {
        let key = prefixed(vec![58u8, 115u8, 101u8, 113u8, 58u8], origin);
        proof {
            assert(seq![58u8, 115u8, 101u8, 113u8, 58u8] =~= ingress_prefix());
        }
        match self.get(key.as_slice()) {
            Some(v) => match decode_u64(v.as_slice()) {
                Some(n) => n,
                None => 0,
            },
            None => 0,
        }
    }

    /// Whether the chain records `pubkey` as a registered worker.
    pub fn is_worker_registered(&self, pubkey: &[u8]) -> (r: bool)
        requires
            self.wf(),
        ensures
            r == self@.dom().contains(worker_key(pubkey@)),
    {
        let key = prefixed(vec![58u8, 119u8, 107u8, 58u8], pubkey);
        proof {
            assert(seq![58u8, 119u8, 107u8, 58u8] =~= worker_prefix());
        }
        self.get(key.as_slice()).is_some()
    }

    /// When the chain accepted the enclave build with this measurement hash.
    pub fn get_pflix_bin_added_at(&self, measurement_hash: &[u8]) -> (r: Option<u64>)
        requires
            self.wf(),
        ensures
            r == stored_bin_added_at(self@, measurement_hash@),
    {
        let key = prefixed(vec![58u8, 98u8, 105u8, 110u8, 58u8], measurement_hash);
        proof {
            assert(seq![58u8, 98u8, 105u8, 110u8, 58u8] =~= bin_added_prefix());
        }
        match self.get(key.as_slice()) {
            Some(v) => decode_u64(v.as_slice()),
            None => None,
        }
    }
}

/// Compares two byte strings: negative, zero or positive as `a` is below, equal to or above `b`.
pub fn compare(a: &[u8], b: &[u8]) -> (r: i8)
    ensures
        (r < 0) == lex_lt(a@, b@),
        (r == 0) == (a@ == b@),
        (r > 0) == lex_lt(b@, a@),
{
    let mut i: usize = 0;
    assert(a@.subrange(0, a@.len() as int) =~= a@);
    assert(b@.subrange(0, b@.len() as int) =~= b@);
    while i < a.len() && i < b.len()
        invariant
            i <= a@.len(),
            i <= b@.len(),
            a@.subrange(0, i as int) == b@.subrange(0, i as int),
            lex_lt(a@, b@) == lex_lt(a@.subrange(i as int, a@.len() as int), b@.subrange(i as int, b@.len() as int)),
            lex_lt(b@, a@) == lex_lt(b@.subrange(i as int, b@.len() as int), a@.subrange(i as int, a@.len() as int)),
        decreases a@.len() - i,
    {
        let ghost sa = a@.subrange(i as int, a@.len() as int);
        let ghost sb = b@.subrange(i as int, b@.len() as int);
        assert(sa.drop_first() =~= a@.subrange(i + 1, a@.len() as int));
        assert(sb.drop_first() =~= b@.subrange(i + 1, b@.len() as int));
        if a[i] < b[i] {
            assert(a@ != b@) by {
                assert(a@[i as int] != b@[i as int]);
            }
            return -1;
        }
        if a[i] > b[i] {
            assert(a@ != b@) by {
                assert(a@[i as int] != b@[i as int]);
            }
            return 1;
        }
        assert(a@.subrange(0, i + 1) =~= a@.subrange(0, i as int).push(a@[i as int]));
        assert(b@.subrange(0, i + 1) =~= b@.subrange(0, i as int).push(b@[i as int]));
        i += 1;
    }
    let ghost sa = a@.subrange(i as int, a@.len() as int);
    let ghost sb = b@.subrange(i as int, b@.len() as int);
    if a.len() == b.len() {
        assert(a@ =~= a@.subrange(0, i as int));
        assert(b@ =~= b@.subrange(0, i as int));
        assert(sa.len() == 0 && sb.len() == 0);
        0
    } else if a.len() < b.len() {
        assert(sa.len() == 0 && sb.len() > 0);
        assert(a@ != b@);
        -1
    } else {
        assert(sb.len() == 0 && sa.len() > 0);
        assert(a@ != b@);
        1
    }
}

/// Two key-sorted sequences that stand for one map are equal.
proof fn lemma_sorted_unique(a: Seq<(Seq<u8>, Seq<u8>)>, b: Seq<(Seq<u8>, Seq<u8>)>)
    requires
        sorted_keys(a),
        sorted_keys(b),
        map_of(a) == map_of(b),
    ensures
        a == b,
    decreases a.len() + b.len(),
{
    if a.len() == 0 || b.len() == 0 {
        if a.len() > 0 {
            lemma_map_of_index(a, 0);
        }
        if b.len() > 0 {
            lemma_map_of_index(b, 0);
        }
        assert(a =~= b);
    } else {
        // the smallest keys agree
        lemma_map_of_index(a, 0);
        lemma_map_of_index(b, 0);
        let ja = choose|j: int| 0 <= j < a.len() && a[j].0 == b[0].0;
        let jb = choose|j: int| 0 <= j < b.len() && b[j].0 == a[0].0;
        if ja > 0 {
            assert(lex_lt(a[0].0, a[ja].0));
            if jb == 0 {
                lemma_lex_irreflexive(a[0].0);
            } else {
                assert(lex_lt(b[0].0, b[jb].0));
                lemma_lex_transitive(a[0].0, b[0].0, a[0].0);
                lemma_lex_irreflexive(a[0].0);
            }
        }
        if jb > 0 {
            assert(lex_lt(b[0].0, b[jb].0));
            if ja == 0 {
                lemma_lex_irreflexive(b[0].0);
            } else {
                assert(lex_lt(a[0].0, a[ja].0));
                lemma_lex_transitive(b[0].0, a[0].0, b[0].0);
                lemma_lex_irreflexive(b[0].0);
            }
        }
        assert(a[0].0 == b[0].0);
        lemma_map_of_index(a, 0);
        lemma_map_of_index(b, 0);
        assert(a[0] == b[0]);
        let ta = a.drop_first();
        let tb = b.drop_first();
        assert forall|k: Seq<u8>| #[trigger] map_of(ta).dom().contains(k) <==> map_of(tb).dom().contains(
            k,
        ) by {
            if map_of(ta).dom().contains(k) {
                let j = choose|j: int| 0 <= j < ta.len() && ta[j].0 == k;
                lemma_map_of_index(a, j + 1);
                let jj = choose|jj: int| 0 <= jj < b.len() && b[jj].0 == k;
                if jj == 0 {
                    assert(lex_lt(a[0].0, a[j + 1].0));
                    lemma_lex_irreflexive(k);
                }
                assert(tb[jj - 1].0 == k);
            }
            if map_of(tb).dom().contains(k) {
                let j = choose|j: int| 0 <= j < tb.len() && tb[j].0 == k;
                lemma_map_of_index(b, j + 1);
                let jj = choose|jj: int| 0 <= jj < a.len() && a[jj].0 == k;
                if jj == 0 {
                    assert(lex_lt(b[0].0, b[j + 1].0));
                    lemma_lex_irreflexive(k);
                }
                assert(ta[jj - 1].0 == k);
            }
        }
        assert forall|k: Seq<u8>| #[trigger] map_of(ta).dom().contains(k) implies map_of(ta)[k]
            == map_of(tb)[k] by {
            let j = choose|j: int| 0 <= j < ta.len() && ta[j].0 == k;
            lemma_map_of_index(ta, j);
            lemma_map_of_index(a, j + 1);
            let jj = choose|jj: int| 0 <= jj < tb.len() && tb[jj].0 == k;
            lemma_map_of_index(tb, jj);
            lemma_map_of_index(b, jj + 1);
        }
        assert(map_of(ta) =~= map_of(tb));
        lemma_sorted_unique(ta, tb);
        assert(a =~= seq![a[0]] + ta);
        assert(b =~= seq![b[0]] + tb);
    }
}

} // verus!
