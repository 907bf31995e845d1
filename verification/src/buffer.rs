//! Decoding of buffers read back from the GPU.
use vstd::prelude::*;
use std::collections::HashSet;

verus! {

broadcast use vstd::std_specs::hash::group_hash_axioms;

/// Little-endian value of the four bytes starting at `4 * i`.
pub open spec fn le_word(bytes: Seq<u8>, i: int) -> int {
    bytes[4 * i] + 256 * bytes[4 * i + 1] + 65536 * bytes[4 * i + 2] + 16777216 * bytes[4 * i + 3]
}

/// Big-endian value of the four bytes starting at `4 * i`.
pub open spec fn be_word(bytes: Seq<u8>, i: int) -> int {
    bytes[4 * i + 3] + 256 * bytes[4 * i + 2] + 65536 * bytes[4 * i + 1] + 16777216 * bytes[4 * i]
}

/// `words` reads `bytes` four at a time, every group in the machine's byte
/// order: all of them little endian, or all of them big endian.
pub open spec fn native_words(bytes: Seq<u8>, words: Seq<u32>) -> bool {
    &&& 4 * words.len() == bytes.len()
    &&& (forall|i: int| 0 <= i < words.len() ==> #[trigger] words[i] == le_word(bytes, i)) || (forall|i: int|
        0 <= i < words.len() ==> #[trigger] words[i] == be_word(bytes, i))
}

/// `u32::from_ne_bytes`. Its documentation says it reads the four bytes in
/// the machine's native byte order; this states only that the result is
/// the little-endian or the big-endian reading, not which one.
#[verifier::external_body]
fn u32_from_ne_bytes(b: [u8; 4]) -> (r: u32)
    ensures
        r == b@[0] + 256 * b@[1] + 65536 * b@[2] + 16777216 * b@[3]
            || r == b@[3] + 256 * b@[2] + 65536 * b@[1] + 16777216 * b@[0],
{
    u32::from_ne_bytes(b)
}

/// The value of the four bytes `b0 b1 b2 b3`, least significant first.
fn word_from_bytes(b0: u8, b1: u8, b2: u8, b3: u8) -> (w: u32)
    ensures
        w == b0 + 256 * b1 + 65536 * b2 + 16777216 * b3,
{
    (b0 as u32) + 256 * (b1 as u32) + 65536 * (b2 as u32) + 16777216 * (b3 as u32)
}

/// Reads `bytes` as native-endian 32-bit words: the machine's byte order is
/// read once, and every word is decoded in that order.
pub fn decode_words(bytes: &[u8]) -> (words: Vec<u32>)
    requires
        bytes.len() % 4 == 0,
    ensures
        native_words(bytes@, words@),
{
    // The native reading of the bytes `1 0 0 0` is one exactly on a
    // little-endian machine.
    let probe = u32_from_ne_bytes([1u8, 0u8, 0u8, 0u8]);
    let little = probe == 1;
    let n = bytes.len() / 4;
    let mut words: Vec<u32> = Vec::new();
    let mut i: usize = 0;
    while i < n
        invariant
            n * 4 == bytes.len(),
            i <= n,
            words.len() == i,
            little ==> forall|j: int| 0 <= j < i ==> #[trigger] words@[j] == le_word(bytes@, j),
            !little ==> forall|j: int| 0 <= j < i ==> #[trigger] words@[j] == be_word(bytes@, j),
        decreases n - i,
    {
        let (b0, b1, b2, b3) = (bytes[4 * i], bytes[4 * i + 1], bytes[4 * i + 2], bytes[4 * i + 3]);
        let w = if little {
            word_from_bytes(b0, b1, b2, b3)
        } else {
            word_from_bytes(b3, b2, b1, b0)
        };
        words.push(w);
        i = i + 1;
    }
    words
}

/// The entries of the first `rays_cast` words of a read-back buffer.
pub fn buffer_to_sparse_triplet(raw_bytes: &Vec<u8>, rays_cast: u32) -> (entries: Vec<u32>)
    requires
        rays_cast * 4 <= u32::MAX,
        rays_cast * 4 <= raw_bytes.len(),
    ensures
        native_words(raw_bytes@.take(rays_cast * 4), entries@),
{
    let end = (rays_cast * 4) as usize;
    let mut prefix: Vec<u8> = Vec::new();
    let mut i: usize = 0;
    while i < end
        invariant
            end == rays_cast * 4,
            end <= raw_bytes.len(),
            i <= end,
            prefix@ == raw_bytes@.take(i as int),
        decreases end - i,
    {
        prefix.push(raw_bytes[i]);
        assert(raw_bytes@.take(i + 1) =~= raw_bytes@.take(i as int).push(raw_bytes@[i as int]));
        i = i + 1;
    }
    decode_words(prefix.as_slice())
}

/// Law: a word reads as zero in one byte order exactly when it reads as
/// zero in the other, so whether a group recorded anything does not depend
/// on the machine's byte order.
pub proof fn zero_word_in_either_order(bytes: Seq<u8>, i: int)
    requires
        0 <= i,
        4 * i + 3 < bytes.len(),
    ensures
        le_word(bytes, i) == 0 <==> be_word(bytes, i) == 0,
        le_word(bytes, i) == 0 <==> (bytes[4 * i] == 0 && bytes[4 * i + 1] == 0 && bytes[4 * i + 2] == 0 && bytes[4 * i
            + 3] == 0),
{
}

/// Some group of three entries starting at a multiple of three records the
/// pair `p`: its first two entries are `p` and its third is not zero.
pub open spec fn records_pair(entries: Seq<u32>, p: (u32, u32)) -> bool {
    exists|i: int|
        0 <= i && i + 2 < entries.len() && i % 3 == 0 && #[trigger] entries[i + 2] != 0 && entries[i] == p.0
            && entries[i + 1] == p.1
}

pub open spec fn pair_key(p: (u32, u32)) -> u64 {
    (p.0 * 4294967296 + p.1) as u64
}

/// The distinct pairs `(x, y)` recorded by the groups `(x, y, count)` of
/// `entries` whose count is not zero, each once, in the order first seen.
pub fn recorded_pairs(entries: &Vec<u32>) -> (pairs: Vec<(u32, u32)>)
    requires
        entries.len() % 3 == 0,
    ensures
        forall|a: int, b: int| 0 <= a < b < pairs.len() ==> pairs@[a] != pairs@[b],
        forall|p: (u32, u32)| #![trigger pairs@.contains(p)] pairs@.contains(p) <==> records_pair(entries@, p),
{
    let mut seen: HashSet<u64> = HashSet::new();
    let mut pairs: Vec<(u32, u32)> = Vec::new();
    let mut i: usize = 0;
    while i < entries.len()
        invariant
            entries.len() % 3 == 0,
            i <= entries.len(),
            i % 3 == 0,
            forall|a: int, b: int| 0 <= a < b < pairs.len() ==> pairs@[a] != pairs@[b],
            forall|k: u64| seen@.contains(k) <==> exists|j: int| 0 <= j < pairs.len() && pair_key(#[trigger] pairs@[j]) == k,
            forall|p: (u32, u32)|
                #![trigger pairs@.contains(p)]
                pairs@.contains(p) <==> records_pair(entries@.take(i as int), p),
        decreases entries.len() - i,
    {
        let x = entries[i];
        let y = entries[i + 1];
        let count = entries[i + 2];
        let ghost before = pairs@;
        let ghost pre = entries@.take(i as int);
        let ghost post = entries@.take(i + 3);
        proof {
            assert forall|p: (u32, u32)| records_pair(pre, p) implies records_pair(post, p) by {
                {
                    let j = choose|j: int| 0 <= j && j + 2 < pre.len() && j % 3 == 0 && #[trigger] pre[j + 2] != 0
                        && pre[j] == p.0 && pre[j + 1] == p.1;
                    assert(post[j + 2] != 0);
                }
            }
            assert forall|p: (u32, u32)| records_pair(post, p) implies (records_pair(pre, p) || (count != 0 && p == (x, y))) by {
                {
                    let j = choose|j: int| 0 <= j && j + 2 < post.len() && j % 3 == 0 && #[trigger] post[j + 2] != 0
                        && post[j] == p.0 && post[j + 1] == p.1;
                    if j < i {
                        assert(pre[j + 2] != 0);
                    }
                }
            }
            if count != 0 {
                assert(post[i + 2] != 0);
                assert(records_pair(post, (x, y)));
            }
        }
        if count != 0 {
            let key: u64 = (x as u64) * 4294967296 + (y as u64);
            assert(key == pair_key((x, y)));
            let fresh = seen.insert(key);
            if fresh {
                pairs.push((x, y));
                proof {
                    assert forall|a: int, b: int| 0 <= a < b < pairs.len() implies pairs@[a] != pairs@[b] by {
                        if b == pairs.len() - 1 && pairs@[a] == pairs@[b] {
                            assert(seen@.contains(key));
                            assert(pair_key(before[a]) == key);
                        }
                    }
                    assert forall|k: u64| seen@.contains(k) <==> exists|j: int| 0 <= j < pairs.len() && pair_key(#[trigger] pairs@[j]) == k by {
                        if k == key {
                            assert(pairs@[pairs.len() - 1] == (x, y));
                        } else if seen@.contains(k) {
                            let j = choose|j: int| 0 <= j < before.len() && pair_key(#[trigger] before[j]) == k;
                            assert(pairs@[j] == before[j]);
                        } else if exists|j: int| 0 <= j < pairs.len() && pair_key(#[trigger] pairs@[j]) == k {
                            let j = choose|j: int| 0 <= j < pairs.len() && pair_key(#[trigger] pairs@[j]) == k;
                            assert(j < before.len());
                            assert(before[j] == pairs@[j]);
                        }
                    }
                    assert forall|p: (u32, u32)| #![trigger pairs@.contains(p)]
                        pairs@.contains(p) <==> records_pair(post, p) by {
                        if p == (x, y) {
                            assert(pairs@[pairs.len() - 1] == p);
                        } else if pairs@.contains(p) {
                            let j = choose|j: int| 0 <= j < pairs.len() && pairs@[j] == p;
                            assert(before[j] == p);
                            assert(before.contains(p));
                        } else if records_pair(post, p) {
                            assert(before.contains(p));
                            let j = choose|j: int| 0 <= j < before.len() && before[j] == p;
                            assert(pairs@[j] == p);
                        }
                    }
                }
            } else {
                proof {
                    let j = choose|j: int| 0 <= j < pairs.len() && pair_key(#[trigger] pairs@[j]) == key;
                    let q = pairs@[j];
                    assert(q == (x, y));
                    assert(pairs@.contains((x, y)));
                    assert forall|p: (u32, u32)| #![trigger pairs@.contains(p)]
                        pairs@.contains(p) <==> records_pair(post, p) by {
                    }
                }
            }
        } else {
            proof {
                assert forall|p: (u32, u32)| #![trigger pairs@.contains(p)]
                    pairs@.contains(p) <==> records_pair(post, p) by {
                }
            }
        }
        i = i + 3;
    }
    assert(entries@.take(entries.len() as int) =~= entries@);
    pairs
}

/// The distinct pairs recorded in a read-back buffer of native-endian
/// words, grouped in threes `(x, y, count)`; groups whose count is zero
/// recorded nothing.
pub fn buffer_to_triplet(raw_bytes: &Vec<u8>) -> (pairs: Vec<(u32, u32)>)
    requires
        raw_bytes.len() % 12 == 0,
    ensures
        forall|a: int, b: int| 0 <= a < b < pairs.len() ==> pairs@[a] != pairs@[b],
        exists|words: Seq<u32>|
            native_words(raw_bytes@, words) && forall|p: (u32, u32)|
                #![trigger pairs@.contains(p)]
                pairs@.contains(p) <==> records_pair(words, p),
{
    let entries = decode_words(raw_bytes.as_slice());
    assert(entries.len() % 3 == 0);
    let pairs = recorded_pairs(&entries);
    assert(native_words(raw_bytes@, entries@));
    pairs
}

/// What the check of an index buffer reports.
#[derive(Clone, Copy, Debug, PartialEq, Eq, Structural)]
pub enum BufferFinding {
    /// The entry at `index` is `value`, not `index`.
    IndexMismatch { index: usize, value: u32 },
    /// The first entry is `value`, not zero.
    FirstNotZero { value: u32 },
    /// The entry at `index` is smaller than the one before it.
    Decreasing { index: usize },
    /// The entry at `index` (not the first) is zero.
    ZeroEntry { index: usize },
}

/// The check stops at index `k` (at least one): the entry there is smaller
/// than the one before or is zero.
pub open spec fn stops_at(entries: Seq<u32>, k: int) -> bool {
    entries[k - 1] > entries[k] || entries[k] == 0
}

/// What the check reports about index `k`, in the order it reports it.
pub open spec fn findings_at(entries: Seq<u32>, k: int) -> Seq<BufferFinding> {
    let mismatch = if k != entries[k] as int {
        seq![BufferFinding::IndexMismatch { index: k as usize, value: entries[k] }]
    } else {
        Seq::empty()
    };
    let rest = if k == 0 {
        if entries[0] != 0 {
            seq![BufferFinding::FirstNotZero { value: entries[0] }]
        } else {
            Seq::empty()
        }
    } else if entries[k - 1] > entries[k] {
        seq![BufferFinding::Decreasing { index: k as usize }]
    } else if entries[k] == 0 {
        seq![BufferFinding::ZeroEntry { index: k as usize }]
    } else {
        Seq::empty()
    };
    mismatch + rest
}

/// Everything reported about the indices below `n`, index by index.
pub open spec fn findings_upto(entries: Seq<u32>, n: int) -> Seq<BufferFinding>
    decreases n,
{
    if n <= 0 {
        Seq::empty()
    } else {
        findings_upto(entries, n - 1) + findings_at(entries, n - 1)
    }
}

/// The number of indices the check looks at: up to and including the first
/// index (at least one) where it stops, or all of them.
pub open spec fn checked_len(entries: Seq<u32>) -> int {
    if exists|k: int| 1 <= k < entries.len() && stops_at(entries, k) {
        (choose|k: int| 1 <= k < entries.len() && stops_at(entries, k) && forall|j: int|
            1 <= j < k ==> !stops_at(entries, j)) + 1
    } else {
        entries.len() as int
    }
}

/// Entry `k` is not smaller than the one before it and is not zero.
pub open spec fn step_ok(entries: Seq<u32>, k: int) -> bool {
    entries[k - 1] <= entries[k] && entries[k] != 0
}

/// No entry after the first is smaller than the one before it or zero.
pub open spec fn rises_from_zero(entries: Seq<u32>) -> bool {
    forall|k: int| 1 <= k < entries.len() ==> #[trigger] step_ok(entries, k)
}

/// What a finding claims about `entries` holds: a mismatch names an entry
/// that differs from its index, a first entry that is not zero is the first
/// entry, a decrease names an entry strictly smaller than the one before
/// it, and a zero entry names a later entry that is zero.
pub open spec fn finding_holds(entries: Seq<u32>, f: BufferFinding) -> bool {
    match f {
        BufferFinding::IndexMismatch { index, value } => index < entries.len() && entries[index as int] == value
            && index != value,
        BufferFinding::FirstNotZero { value } => entries.len() > 0 && entries[0] == value && value != 0,
        BufferFinding::Decreasing { index } => 1 <= index < entries.len() && entries[index - 1] > entries[index as int],
        BufferFinding::ZeroEntry { index } => 1 <= index < entries.len() && entries[index as int] == 0,
    }
}

proof fn lemma_findings_hold(entries: Seq<u32>, n: int)
    requires
        0 <= n <= entries.len(),
        entries.len() <= usize::MAX,
    ensures
        forall|i: int| 0 <= i < findings_upto(entries, n).len() ==> finding_holds(entries, #[trigger] findings_upto(entries, n)[i]),
    decreases n,
{
    if n > 0 {
        lemma_findings_hold(entries, n - 1);
        let k = n - 1;
        assert((k as usize) as int == k);
        let prev = findings_upto(entries, k);
        let at = findings_at(entries, k);
        assert forall|i: int| 0 <= i < at.len() implies finding_holds(entries, #[trigger] at[i]) by {}
        assert forall|i: int| 0 <= i < findings_upto(entries, n).len() implies finding_holds(
            entries,
            #[trigger] findings_upto(entries, n)[i],
        ) by {
            if i < prev.len() {
                assert(findings_upto(entries, n)[i] == prev[i]);
            } else {
                assert(findings_upto(entries, n)[i] == at[i - prev.len()]);
            }
        }
    }
}

proof fn lemma_checked_len(entries: Seq<u32>)
    ensures
        0 <= checked_len(entries) <= entries.len(),
{
    if exists|k: int| 1 <= k < entries.len() && stops_at(entries, k) {
        let k0 = choose|k: int| 1 <= k < entries.len() && stops_at(entries, k);
        lemma_least_stop(entries, k0);
    }
}

proof fn lemma_least_stop(entries: Seq<u32>, k0: int)
    requires
        1 <= k0 < entries.len(),
        stops_at(entries, k0),
    ensures
        exists|k: int| 1 <= k < entries.len() && stops_at(entries, k) && forall|j: int| 1 <= j < k ==> !stops_at(entries, j),
    decreases k0,
{
    if exists|j: int| 1 <= j < k0 && stops_at(entries, j) {
        let j = choose|j: int| 1 <= j < k0 && stops_at(entries, j);
        lemma_least_stop(entries, j);
    } else {
        assert(forall|j: int| 1 <= j < k0 ==> !stops_at(entries, j));
    }
}

/// Law: every finding of the check is true of the buffer, and a buffer
/// whose later entries never fall and are never zero is checked to its end
/// with neither a decrease nor a zero entry reported; an entry equal to the
/// one before it is no decrease.
pub proof fn increasing_check_reports_truthfully(entries: Seq<u32>)
    requires
        entries.len() <= usize::MAX,
    ensures
        forall|i: int|
            0 <= i < findings_upto(entries, checked_len(entries)).len() ==> finding_holds(
                entries,
                #[trigger] findings_upto(entries, checked_len(entries))[i],
            ),
        rises_from_zero(entries) ==> {
            &&& checked_len(entries) == entries.len()
            &&& forall|i: int|
                0 <= i < findings_upto(entries, entries.len() as int).len() ==> !(#[trigger] findings_upto(
                    entries,
                    entries.len() as int,
                )[i] is Decreasing) && !(findings_upto(entries, entries.len() as int)[i] is ZeroEntry)
        },
{
    lemma_checked_len(entries);
    lemma_findings_hold(entries, checked_len(entries));
    if rises_from_zero(entries) {
        assert forall|k: int| 1 <= k < entries.len() implies !stops_at(entries, k) by {
            assert(step_ok(entries, k));
        }
        lemma_findings_hold(entries, entries.len() as int);
        let all = findings_upto(entries, entries.len() as int);
        assert forall|i: int| 0 <= i < all.len() implies !(#[trigger] all[i] is Decreasing) && !(all[i] is ZeroEntry) by {
            assert(finding_holds(entries, all[i]));
            match all[i] {
                BufferFinding::Decreasing { index } => {
                    assert(step_ok(entries, index as int));
                },
                BufferFinding::ZeroEntry { index } => {
                    assert(step_ok(entries, index as int));
                },
                _ => {},
            }
        }
    }
}

/// Checks that an index buffer counts up from zero: reports every entry
/// that differs from its index, a first entry that is not zero, and stops
/// at the first later entry that is smaller than the one before it or zero.
pub fn buffer_increasing_check(entries: &Vec<u32>) -> (findings: Vec<BufferFinding>)
    ensures
        findings@ == findings_upto(entries@, checked_len(entries@)),
        forall|i: int| 0 <= i < findings@.len() ==> finding_holds(entries@, #[trigger] findings@[i]),
        rises_from_zero(entries@) ==> forall|i: int|
            0 <= i < findings@.len() ==> !(#[trigger] findings@[i] is Decreasing) && !(findings@[i] is ZeroEntry),
{
    proof {
        assert(entries@.len() == entries.len());
        increasing_check_reports_truthfully(entries@);
    }
    let ghost e = entries@;
    let mut findings: Vec<BufferFinding> = Vec::new();
    let mut previous: u32 = 0;
    let mut index: usize = 0;
    while index < entries.len()
        invariant
            e == entries@,
            index <= e.len(),
            index > 0 ==> previous == e[index - 1],
            forall|j: int| 1 <= j < index ==> !stops_at(e, j),
            findings@ == findings_upto(e, index as int),
            forall|i: int|
                0 <= i < findings_upto(e, checked_len(e)).len() ==> finding_holds(
                    e,
                    #[trigger] findings_upto(e, checked_len(e))[i],
                ),
            rises_from_zero(e) ==> checked_len(e) == e.len() && forall|i: int|
                0 <= i < findings_upto(e, e.len() as int).len() ==> !(#[trigger] findings_upto(e, e.len() as int)[i] is Decreasing)
                    && !(findings_upto(e, e.len() as int)[i] is ZeroEntry),
        decreases e.len() - index,
    {
        let x = entries[index];
        let ghost before = findings@;
        if index != x as usize {
            findings.push(BufferFinding::IndexMismatch { index, value: x });
        }
        if index == 0 {
            if x != 0 {
                findings.push(BufferFinding::FirstNotZero { value: x });
            }
            previous = x;
            assert(findings@ =~= before + findings_at(e, 0));
        } else if previous > x {
            findings.push(BufferFinding::Decreasing { index });
            assert(findings@ =~= before + findings_at(e, index as int));
            proof {
                assert(stops_at(e, index as int));
                let k = choose|k: int| 1 <= k < e.len() && stops_at(e, k) && forall|j: int| 1 <= j < k ==> !stops_at(e, j);
                assert(k == index) by {
                    if k < index { assert(!stops_at(e, k)); }
                    if k > index { assert(!stops_at(e, index as int)); }
                }
                assert(findings@ == findings_upto(e, checked_len(e)));
                assert forall|i: int| 0 <= i < findings@.len() implies finding_holds(e, #[trigger] findings@[i]) by {
                    assert(findings@[i] == findings_upto(e, checked_len(e))[i]);
                }
            }
            return findings;
        } else if x == 0 {
            findings.push(BufferFinding::ZeroEntry { index });
            assert(findings@ =~= before + findings_at(e, index as int));
            proof {
                assert(stops_at(e, index as int));
                let k = choose|k: int| 1 <= k < e.len() && stops_at(e, k) && forall|j: int| 1 <= j < k ==> !stops_at(e, j);
                assert(k == index) by {
                    if k < index { assert(!stops_at(e, k)); }
                    if k > index { assert(!stops_at(e, index as int)); }
                }
                assert(findings@ == findings_upto(e, checked_len(e)));
                assert forall|i: int| 0 <= i < findings@.len() implies finding_holds(e, #[trigger] findings@[i]) by {
                    assert(findings@[i] == findings_upto(e, checked_len(e))[i]);
                }
            }
            return findings;
        } else {
            previous = x;
            assert(findings@ =~= before + findings_at(e, index as int));
        }
        index = index + 1;
    }
    proof {
        if exists|k: int| 1 <= k < e.len() && stops_at(e, k) {
            let k = choose|k: int| 1 <= k < e.len() && stops_at(e, k);
            assert(!stops_at(e, k));
        }
    }
    findings
}

} // verus!
