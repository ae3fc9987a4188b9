//! Counting events per venue or organisation.
use vstd::prelude::*;
use crate::matching::views;

verus! {

/// How many events carry one key, and how many of those are purchased.
#[derive(Debug)]
pub struct KeyCount {
    pub key: String,
    pub total: usize,
    pub purchased: usize,
}

/// How many of `keys` equal `k`.
pub open spec fn count_of(keys: Seq<Seq<char>>, k: Seq<char>) -> nat
    decreases keys.len(),
{
    if keys.len() == 0 {
        0
    } else {
        count_of(keys.drop_last(), k) + if keys.last() == k { 1nat } else { 0nat }
    }
}

/// How many positions hold the key `k` with the flag set.
pub open spec fn count_flagged(keys: Seq<Seq<char>>, flags: Seq<bool>, k: Seq<char>) -> nat
    decreases keys.len(),
{
    if keys.len() == 0 || flags.len() == 0 {
        0
    } else {
        count_flagged(keys.drop_last(), flags.drop_last(), k) + if keys.last() == k
            && flags.last() {
            1nat
        } else {
            0nat
        }
    }
}

proof fn lemma_counts_bounded(keys: Seq<Seq<char>>, flags: Seq<bool>, k: Seq<char>)
    ensures
        count_of(keys, k) <= keys.len(),
        count_flagged(keys, flags, k) <= keys.len(),
    decreases keys.len(),
{
    if keys.len() > 0 {
        lemma_counts_bounded(keys.drop_last(), flags.drop_last(), k);
    }
}

/// `r` has one entry per distinct key, and each entry's counts are those of
/// its key.
pub open spec fn tally_ok(keys: Seq<Seq<char>>, flags: Seq<bool>, r: Seq<KeyCount>) -> bool {
    &&& forall|i: int, j: int| 0 <= i < j < r.len() ==> (#[trigger] r[i]).key@ != (#[trigger] r[j]).key@
    &&& forall|i: int| 0 <= i < keys.len() ==> exists|j: int| 0 <= j < r.len() && (#[trigger] r[j]).key@ == #[trigger] keys[i]
    &&& forall|j: int|
        0 <= j < r.len() ==> (#[trigger] r[j]).total == count_of(keys, r[j].key@) && r[j].purchased
            == count_flagged(keys, flags, r[j].key@)
}

/// Counts the events per key: one entry for each distinct key, with the
/// number of events carrying it and how many of those are flagged as
/// purchased.
pub fn tally(keys: &Vec<String>, purchased: &Vec<bool>) -> (r: Vec<KeyCount>)
    requires
        keys@.len() == purchased@.len(),
    ensures
        tally_ok(views(keys@), purchased@, r@),
{
    let ghost kv = views(keys@);
    let mut r: Vec<KeyCount> = Vec::new();
    let mut i: usize = 0;
    while i < keys.len()
        invariant
            i <= keys@.len(),
            keys@.len() == purchased@.len(),
            kv == views(keys@),
            r@.len() <= i,
            tally_ok(kv.subrange(0, i as int), purchased@.subrange(0, i as int), r@),
        decreases keys@.len() - i,
    {
        let ghost pk = kv.subrange(0, i as int);
        let ghost pf = purchased@.subrange(0, i as int);
        let ghost nk = kv.subrange(0, i + 1);
        let ghost nf = purchased@.subrange(0, i + 1);
        proof {
            assert(nk.drop_last() == pk);
            assert(nf.drop_last() == pf);
            assert(nk.last() == keys@[i as int]@);
            assert(nf.last() == purchased@[i as int]);
        }
        let mut g: usize = 0;
        while g < r.len() && r[g].key != keys[i]
            invariant
                i < keys@.len(),
                keys@.len() == purchased@.len(),
                kv == views(keys@),
                r@.len() <= i,
                pk == kv.subrange(0, i as int),
                pf == purchased@.subrange(0, i as int),
                nk == kv.subrange(0, i + 1),
                nf == purchased@.subrange(0, i + 1),
                nk.drop_last() == pk,
                nf.drop_last() == pf,
                nk.last() == keys@[i as int]@,
                nf.last() == purchased@[i as int],
                tally_ok(pk, pf, r@),
                g <= r@.len(),
                forall|h: int| 0 <= h < g ==> (#[trigger] r@[h]).key@ != keys@[i as int]@,
            decreases r@.len() - g,
        {
            g = g + 1;
        }
        let ghost before = r@;
        let flag: usize = if purchased[i] { 1 } else { 0 };
        if g < r.len() {
            proof {
                lemma_counts_bounded(pk, pf, before[g as int].key@);
            }
            let entry = KeyCount {
                key: r[g].key.clone(),
                total: r[g].total + 1,
                purchased: r[g].purchased + flag,
            };
            r.set(g, entry);
            proof {
                assert forall|h: int| 0 <= h < r@.len() implies (#[trigger] r@[h]).total == count_of(
                    nk,
                    r@[h].key@,
                ) && r@[h].purchased == count_flagged(nk, nf, r@[h].key@) by {
                    assert(r@[h].key@ == before[h].key@);
                }
                assert forall|a: int| 0 <= a < nk.len() implies exists|j: int|
                    0 <= j < r@.len() && (#[trigger] r@[j]).key@ == #[trigger] nk[a] by {
                    if a < i {
                        assert(nk[a] == pk[a]);
                        let j = choose|j: int| 0 <= j < before.len() && (#[trigger] before[j]).key@ == pk[a];
                        assert(r@[j].key@ == before[j].key@);
                    } else {
                        assert(r@[g as int].key@ == nk[a]);
                    }
                }
                assert forall|x: int, y: int| 0 <= x < y < r@.len() implies (#[trigger] r@[x]).key@
                    != (#[trigger] r@[y]).key@ by {
                    assert(r@[x].key@ == before[x].key@);
                    assert(r@[y].key@ == before[y].key@);
                }
            }
        } else {
            let entry = KeyCount { key: keys[i].clone(), total: 1, purchased: flag };
            r.push(entry);
            proof {
                assert(count_of(pk, keys@[i as int]@) == 0) by {
                    lemma_absent_count(pk, pf, keys@[i as int]@, before);
                }
                assert(count_flagged(pk, pf, keys@[i as int]@) == 0) by {
                    lemma_absent_count(pk, pf, keys@[i as int]@, before);
                }
                assert forall|h: int| 0 <= h < r@.len() implies (#[trigger] r@[h]).total == count_of(
                    nk,
                    r@[h].key@,
                ) && r@[h].purchased == count_flagged(nk, nf, r@[h].key@) by {
                    if h < before.len() {
                        assert(r@[h] == before[h]);
                    }
                }
                assert forall|a: int| 0 <= a < nk.len() implies exists|j: int|
                    0 <= j < r@.len() && (#[trigger] r@[j]).key@ == #[trigger] nk[a] by {
                    if a < i {
                        assert(nk[a] == pk[a]);
                        let j = choose|j: int| 0 <= j < before.len() && (#[trigger] before[j]).key@ == pk[a];
                        assert(r@[j] == before[j]);
                    } else {
                        assert(r@[before.len() as int].key@ == nk[a]);
                    }
                }
                assert forall|x: int, y: int| 0 <= x < y < r@.len() implies (#[trigger] r@[x]).key@
                    != (#[trigger] r@[y]).key@ by {
                    if y < before.len() {
                        assert(r@[x] == before[x]);
                        assert(r@[y] == before[y]);
                    } else {
                        assert(r@[x] == before[x]);
                    }
                }
            }
        }
        i = i + 1;
    }
    proof {
        assert(kv.subrange(0, keys@.len() as int) == kv);
        assert(purchased@.subrange(0, keys@.len() as int) == purchased@);
    }
    r
}

/// A key that no counted entry carries does not occur among the keys.
proof fn lemma_absent_count(keys: Seq<Seq<char>>, flags: Seq<bool>, k: Seq<char>, r: Seq<KeyCount>)
    requires
        forall|i: int| 0 <= i < keys.len() ==> exists|j: int| 0 <= j < r.len() && (#[trigger] r[j]).key@ == #[trigger] keys[i],
        forall|h: int| 0 <= h < r.len() ==> (#[trigger] r[h]).key@ != k,
    ensures
        count_of(keys, k) == 0,
        count_flagged(keys, flags, k) == 0,
    decreases keys.len(),
{
    if keys.len() > 0 {
        let n = keys.len() - 1;
        assert(keys.last() == keys[n]);
        let j = choose|j: int| 0 <= j < r.len() && (#[trigger] r[j]).key@ == keys[n];
        assert forall|i: int| 0 <= i < keys.drop_last().len() implies exists|j: int|
            0 <= j < r.len() && (#[trigger] r[j]).key@ == #[trigger] keys.drop_last()[i] by {
            assert(keys.drop_last()[i] == keys[i]);
        }
        lemma_absent_count(keys.drop_last(), flags.drop_last(), k, r);
    }
}

} // verus!
