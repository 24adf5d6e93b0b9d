use vstd::prelude::*;

use crate::cache::errors::{CacheElementNotFound, CacheErr, CannotOverwriteCacheElement, FoundTooManyCacheElements};

verus! {

/// A cached value with its bookkeeping. Instants are Unix nanoseconds.
#[derive(Debug)]
pub struct CacheEntry<K, V> {
    pub key: K,
    pub value: V,
    pub is_dirty: bool,
    pub created_at: i128,
    pub last_accessed: i128,
}

/// The entry that a write of `value` under `key` at `now` stores: it keeps the
/// creation time of the entry it replaces, if any, and is accessed now.
pub fn written_entry<K, V>(
    key: K,
    value: V,
    existing_created_at: Option<i128>,
    is_dirty: bool,
    now: i128,
) -> (r: CacheEntry<K, V>)
    ensures
        r.key == key,
        r.value == value,
        r.is_dirty == is_dirty,
        r.created_at == match existing_created_at {
            Some(c) => c,
            None => now,
        },
        r.last_accessed == now,
{
    let created_at = match existing_created_at {
        Some(c) => c,
        None => now,
    };
    CacheEntry { key, value, is_dirty, created_at, last_accessed: now }
}

/// A write that may not replace an existing entry is refused when the key is taken.
pub fn check_overwrite(exists: bool, overwrite: bool, key: &str) -> (r: Result<(), CacheErr>)
    ensures
        (exists && !overwrite) ==> (r matches Err(CacheErr::CannotOverwriteCacheElement(e))
            && e.key@ == key@),
        !(exists && !overwrite) ==> r is Ok,
{
    if exists && !overwrite {
        return Err(
            CacheErr::CannotOverwriteCacheElement(CannotOverwriteCacheElement { key: key.to_owned() }),
        );
    }
    Ok(())
}

/// Entry `a` was accessed before entry `b`, ties going to the earlier position.
pub open spec fn accessed_before(last_accessed: Seq<i128>, a: int, b: int) -> bool {
    last_accessed[a] < last_accessed[b] || (last_accessed[a] == last_accessed[b] && a < b)
}

/// The entries (by position) to evict from a cache whose valid entries were last
/// accessed at `last_accessed` so that `capacity` remain: the least recently accessed
/// ones, earliest first, ties going to the earlier position. The count evicted is the
/// number of entries less the capacity, which must not be negative (pruning runs only
/// on an over-full cache).
pub fn prune_victims(last_accessed: &Vec<i128>, capacity: usize) -> (r: Vec<usize>)
    requires
        capacity <= last_accessed@.len(),
    ensures
        r@.len() == last_accessed@.len() - capacity,
        forall|i: int| 0 <= i < r@.len() ==> (#[trigger] r@[i]) < last_accessed@.len(),
        forall|i: int, j: int| 0 <= i < j < r@.len() ==> accessed_before(last_accessed@, r@[i] as int, r@[j] as int),
        forall|i: int, k: int|
            0 <= i < r@.len() && 0 <= k < last_accessed@.len() && !r@.contains(k as usize)
                ==> #[trigger] accessed_before(last_accessed@, r@[i] as int, k),
{
    let n = last_accessed.len();
    let count: usize = n - capacity;
    let ghost la = last_accessed@;
    let mut chosen: Vec<bool> = Vec::new();
    let mut j: usize = 0;
    while j < n
        invariant
            j <= n,
            n == la.len(),
            chosen@.len() == j,
            count_true(chosen@) == 0,
            forall|k: int| 0 <= k < j ==> !(#[trigger] chosen@[k]),
        decreases n - j,
    {
        let ghost before = chosen@;
        chosen.push(false);
        assert(chosen@.drop_last() =~= before);
        j = j + 1;
    }
    let mut victims: Vec<usize> = Vec::new();
    while victims.len() < count
        invariant
            n == la.len(),
            la == last_accessed@,
            count <= n,
            chosen@.len() == n,
            count_true(chosen@) == victims@.len(),
            victims@.len() <= count,
            forall|i: int| 0 <= i < victims@.len() ==> (#[trigger] victims@[i]) < n,
            forall|k: int| 0 <= k < n ==> (#[trigger] chosen@[k] <==> victims@.contains(k as usize)),
            forall|i: int, j: int| 0 <= i < j < victims@.len() ==> accessed_before(la, victims@[i] as int, victims@[j] as int),
            forall|i: int, k: int|
                0 <= i < victims@.len() && 0 <= k < n && !chosen@[k] ==> #[trigger] accessed_before(la, victims@[i] as int, k),
        decreases count - victims@.len(),
    {
        proof {
            lemma_some_clear(chosen@);
        }
        let mut best: usize = n;
        let mut k: usize = 0;
        while k < n
            invariant
                n == la.len(),
                la == last_accessed@,
                chosen@.len() == n,
                k <= n,
                best == n || (best < k && !chosen@[best as int]),
                best == n ==> forall|m: int| 0 <= m < k ==> #[trigger] chosen@[m],
                best < n ==> forall|m: int| 0 <= m < k && !chosen@[m] && m != best ==> accessed_before(la, best as int, m),
            decreases n - k,
        {
            if !chosen[k] {
                if best == n || last_accessed[k] < last_accessed[best] {
                    best = k;
                }
            }
            k = k + 1;
        }
        assert(best < n);
        let ghost old_victims = victims@;
        let ghost old_chosen = chosen@;
        chosen.set(best, true);
        victims.push(best);
        proof {
            lemma_count_set(old_chosen, best as int);
            assert forall|m: int| 0 <= m < n implies (#[trigger] chosen@[m] <==> victims@.contains(m as usize)) by {
                if m == best {
                    assert(victims@[victims@.len() - 1] == best);
                } else {
                    assert(chosen@[m] == old_chosen[m]);
                    if old_victims.contains(m as usize) {
                        let w = choose|w: int| 0 <= w < old_victims.len() && old_victims[w] == m as usize;
                        assert(victims@[w] == m as usize);
                    }
                    if victims@.contains(m as usize) {
                        let w = choose|w: int| 0 <= w < victims@.len() && victims@[w] == m as usize;
                        assert(w < old_victims.len());
                        assert(old_victims[w] == m as usize);
                    }
                }
            }
            assert forall|i: int, j: int| 0 <= i < j < victims@.len() implies accessed_before(la, victims@[i] as int, victims@[j] as int) by {
                if j == victims@.len() - 1 {
                    assert(victims@[i] == old_victims[i]);
                    assert(!old_chosen[best as int]);
                } else {
                    assert(victims@[i] == old_victims[i] && victims@[j] == old_victims[j]);
                }
            }
            assert forall|i: int, m: int|
                0 <= i < victims@.len() && 0 <= m < n && !chosen@[m] implies #[trigger] accessed_before(la, victims@[i] as int, m) by {
                assert(m != best);
                assert(!old_chosen[m]);
                if i < victims@.len() - 1 {
                    assert(victims@[i] == old_victims[i]);
                }
            }
        }
    }
    proof {
        assert forall|i: int, k: int|
            0 <= i < victims@.len() && 0 <= k < la.len() && !victims@.contains(k as usize) implies #[trigger] accessed_before(la, victims@[i] as int, k) by {
            assert(!chosen@[k]);
        }
    }
    victims
}

/// The number of set flags.
spec fn count_true(s: Seq<bool>) -> nat
    decreases s.len(),
{
    if s.len() == 0 {
        0
    } else {
        count_true(s.drop_last()) + if s.last() {
            1nat
        } else {
            0nat
        }
    }
}

/// With fewer set flags than flags, some flag is clear.
proof fn lemma_some_clear(s: Seq<bool>)
    requires
        count_true(s) < s.len(),
    ensures
        exists|k: int| 0 <= k < s.len() && !(#[trigger] s[k]),
    decreases s.len(),
{
    let t = s.drop_last();
    if s.last() {
        lemma_some_clear(t);
        let k = choose|k: int| 0 <= k < t.len() && !(#[trigger] t[k]);
        assert(s[k] == t[k]);
    } else {
        assert(!s[s.len() - 1]);
    }
}

/// Setting a clear flag adds one to the count.
proof fn lemma_count_set(s: Seq<bool>, i: int)
    requires
        0 <= i < s.len(),
        !s[i],
    ensures
        count_true(s.update(i, true)) == count_true(s) + 1,
    decreases s.len(),
{
    let u = s.update(i, true);
    if i == s.len() - 1 {
        assert(u.drop_last() =~= s.drop_last());
    } else {
        lemma_count_set(s.drop_last(), i);
        assert(u.drop_last() =~= s.drop_last().update(i, true));
    }
}

/// At most one of the entries found by a filter: more than one is an error.
pub fn pick_one<T>(found: Vec<T>, filter_name: &str) -> (r: Result<Option<T>, CacheErr>)
    ensures
        found@.len() > 1 ==> (r matches Err(CacheErr::FoundTooManyCacheElements(e))
            && e.expected_count == 1 && e.actual_count == found@.len() && e.filter_name@
            == filter_name@),
        found@.len() == 1 ==> r == Ok::<Option<T>, CacheErr>(Some(found@[0])),
        found@.len() == 0 ==> r == Ok::<Option<T>, CacheErr>(None),
{
    let n = found.len();
    if n > 1 {
        return Err(
            CacheErr::FoundTooManyCacheElements(
                FoundTooManyCacheElements {
                    expected_count: 1,
                    actual_count: n,
                    filter_name: filter_name.to_owned(),
                },
            ),
        );
    }
    let mut found = found;
    if n == 0 {
        return Ok(None);
    }
    let x = found.pop().unwrap();
    Ok(Some(x))
}

/// The message of a filter lookup that found nothing.
pub open spec fn not_found_by_filter_msg(filter_name: Seq<char>) -> Seq<char> {
    "Unable to find cache entry with filter: '"@ + filter_name + "'"@
}

/// Exactly one entry: none found is an error naming the filter.
pub fn require_one<T>(found: Option<T>, filter_name: &str) -> (r: Result<T, CacheErr>)
    ensures
        match found {
            Some(x) => r == Ok::<T, CacheErr>(x),
            None => r matches Err(CacheErr::CacheElementNotFound(e)) && e.msg@
                == not_found_by_filter_msg(filter_name@),
        },
{
    match found {
        Some(x) => Ok(x),
        None => {
            let mut msg = String::from_str("Unable to find cache entry with filter: '");
            msg.append(filter_name);
            msg.append("'");
            proof {
                reveal_strlit("Unable to find cache entry with filter: '");
                reveal_strlit("'");
            }
            Err(CacheErr::CacheElementNotFound(CacheElementNotFound { msg }))
        },
    }
}

} // verus!
