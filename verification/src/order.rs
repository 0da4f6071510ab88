//! Stable sorting by string keys.

use vstd::prelude::*;
use crate::text::{lex_le, lex_less_eq, lemma_lex_le_total, lemma_lex_le_refl};

verus! {

/// Whether `r` is `s` rearranged by `p` (`r[k]` is `s[p[k]]`, and no index
/// of `s` is used twice), in order of `key`, with items of equal key in
/// their order in `s`.
pub open spec fn stable_sort_by<T>(r: Seq<T>, s: Seq<T>, key: spec_fn(T) -> Seq<char>, p: Seq<int>) -> bool {
    &&& r.len() == s.len()
    &&& p.len() == s.len()
    &&& forall|k: int| 0 <= k < r.len() ==> 0 <= #[trigger] p[k] < s.len() && r[k] == s[p[k]]
    &&& forall|k: int, l: int| 0 <= k < l < r.len() ==> #[trigger] p[k] != #[trigger] p[l]
    &&& forall|k: int, l: int|
        0 <= k < l < r.len() ==> lex_le(key(#[trigger] r[k]), key(#[trigger] r[l]))
    &&& forall|k: int, l: int|
        0 <= k < l < r.len() && key(r[k]) == key(r[l]) ==> #[trigger] p[k] < #[trigger] p[l]
}

/// Whether `r` is `s` sorted stably by `key`.
pub open spec fn stably_sorted_by<T>(r: Seq<T>, s: Seq<T>, key: spec_fn(T) -> Seq<char>) -> bool {
    exists|p: Seq<int>| stable_sort_by(r, s, key, p)
}

/// Sorts `items` by `keys` (the key of `items[i]` is `keys[i]`), keeping
/// items of equal key in their order.
pub fn sort_by_keys<T>(items: Vec<T>, keys: Vec<String>, Ghost(key): Ghost<spec_fn(T) -> Seq<char>>) -> (r: Vec<T>)
    requires
        items@.len() == keys@.len(),
        forall|i: int| 0 <= i < items@.len() ==> (#[trigger] keys@[i])@ == key(items@[i]),
    ensures
        stably_sorted_by(r@, items@, key),
{
    let ghost orig = items@;
    let ghost orig_keys = keys@;
    let n = items.len();
    let mut items = items;
    let mut keys = keys;
    let mut r: Vec<T> = Vec::new();
    let mut rkeys: Vec<String> = Vec::new();
    let ghost mut p: Seq<int> = Seq::empty();
    let mut i: usize = 0;
    while i < n
        invariant
            n == orig.len(),
            n == orig_keys.len(),
            forall|j: int| 0 <= j < n ==> (#[trigger] orig_keys[j])@ == key(orig[j]),
            i <= n,
            items@ == orig.skip(i as int),
            keys@ == orig_keys.skip(i as int),
            r@.len() == i,
            rkeys@.len() == i,
            p.len() == i,
            forall|k: int| 0 <= k < i ==> (#[trigger] rkeys@[k])@ == key(r@[k]),
            forall|k: int| 0 <= k < i ==> 0 <= #[trigger] p[k] < i && r@[k] == orig[p[k]],
            forall|k: int, l: int| 0 <= k < l < i ==> #[trigger] p[k] != #[trigger] p[l],
            forall|k: int, l: int|
                0 <= k < l < i ==> lex_le(key(#[trigger] r@[k]), key(#[trigger] r@[l])),
            forall|k: int, l: int|
                0 <= k < l < i && key(r@[k]) == key(r@[l]) ==> #[trigger] p[k] < #[trigger] p[l],
        decreases n - i,
    {
        assert(items@[0] == orig[i as int]);
        assert(keys@[0] == orig_keys[i as int]);
        let x = items.remove(0);
        let kx = keys.remove(0);
        assert(items@ =~= orig.skip(i + 1));
        assert(keys@ =~= orig_keys.skip(i + 1));
        let ghost kxv = key(x);
        assert(kx@ == kxv);
        let mut pos: usize = 0;
        while pos < i && lex_less_eq(rkeys[pos].as_str(), kx.as_str())
            invariant
                i == rkeys@.len(),
                pos <= i,
                forall|k: int| 0 <= k < i ==> (#[trigger] rkeys@[k])@ == key(r@[k]),
                forall|k: int| 0 <= k < pos ==> lex_le(key(#[trigger] r@[k]), kxv),
                kx@ == kxv,
            decreases i - pos,
        {
            pos = pos + 1;
        }
        // Every item from `pos` on has a key strictly above the new key.
        assert forall|k: int| pos <= k < i && (forall|l: int| 0 <= l < k ==> lex_le(key(#[trigger] r@[l]), key(r@[k])))
            implies !lex_le(key(#[trigger] r@[k]), kxv) by {
            if pos < i {
                assert(!lex_le(key(r@[pos as int]), kxv));
                if k > pos {
                    if lex_le(key(r@[k]), kxv) {
                        crate::text::lemma_lex_le_trans(key(r@[pos as int]), key(r@[k]), kxv);
                    }
                }
            }
        }
        let ghost old_r = r@;
        let ghost old_rk = rkeys@;
        let ghost old_p = p;
        r.insert(pos, x);
        rkeys.insert(pos, kx);
        proof {
            p = p.insert(pos as int, i as int);
            assert forall|k: int| 0 <= k < i + 1 implies (#[trigger] rkeys@[k])@ == key(r@[k]) by {
                if k < pos {
                } else if k == pos {
                } else {
                    assert(rkeys@[k] == old_rk[k - 1] && r@[k] == old_r[k - 1]);
                }
            }
            assert forall|k: int| 0 <= k < i + 1 implies 0 <= #[trigger] p[k] < i + 1 && r@[k] == orig[p[k]] by {
                if k < pos {
                    assert(r@[k] == old_r[k]);
                } else if k == pos {
                } else {
                    assert(r@[k] == old_r[k - 1]);
                    assert(p[k] == old_p[k - 1]);
                }
            }
            assert forall|k: int, l: int| 0 <= k < l < i + 1 implies #[trigger] p[k] != #[trigger] p[l] by {
                if k < pos && l < pos {
                    assert(p[k] == old_p[k] && p[l] == old_p[l]);
                } else if k < pos && l == pos {
                    assert(p[k] == old_p[k]);
                } else if k < pos && l > pos {
                    assert(p[k] == old_p[k] && p[l] == old_p[l - 1]);
                } else if k == pos {
                    assert(p[l] == old_p[l - 1]);
                } else {
                    assert(p[k] == old_p[k - 1] && p[l] == old_p[l - 1]);
                }
            }
            assert forall|k: int, l: int| 0 <= k < l < i + 1 implies lex_le(key(#[trigger] r@[k]), key(#[trigger] r@[l])) by {
                if k < pos && l < pos {
                    assert(r@[k] == old_r[k] && r@[l] == old_r[l]);
                } else if k < pos && l == pos {
                    assert(r@[k] == old_r[k]);
                } else if k < pos && l > pos {
                    assert(r@[k] == old_r[k] && r@[l] == old_r[l - 1]);
                } else if k == pos {
                    assert(r@[l] == old_r[l - 1]);
                    assert(forall|m: int| 0 <= m < l - 1 ==> lex_le(key(#[trigger] old_r[m]), key(old_r[l - 1])));
                    assert(!lex_le(key(old_r[l - 1]), kxv));
                    lemma_lex_le_total(key(old_r[l - 1]), kxv);
                } else {
                    assert(r@[k] == old_r[k - 1] && r@[l] == old_r[l - 1]);
                }
            }
            assert forall|k: int, l: int| 0 <= k < l < i + 1 && key(r@[k]) == key(r@[l]) implies #[trigger] p[k] < #[trigger] p[l] by {
                if k < pos && l < pos {
                    assert(r@[k] == old_r[k] && r@[l] == old_r[l]);
                    assert(p[k] == old_p[k] && p[l] == old_p[l]);
                } else if k < pos && l == pos {
                    assert(p[k] == old_p[k]);
                } else if k < pos && l > pos {
                    assert(r@[k] == old_r[k] && r@[l] == old_r[l - 1]);
                    assert(p[k] == old_p[k] && p[l] == old_p[l - 1]);
                } else if k == pos {
                    assert(r@[l] == old_r[l - 1]);
                    assert(forall|m: int| 0 <= m < l - 1 ==> lex_le(key(#[trigger] old_r[m]), key(old_r[l - 1])));
                    assert(!lex_le(key(old_r[l - 1]), kxv));
                    lemma_lex_le_refl(kxv);
                } else {
                    assert(r@[k] == old_r[k - 1] && r@[l] == old_r[l - 1]);
                    assert(p[k] == old_p[k - 1] && p[l] == old_p[l - 1]);
                }
            }
        }
        i = i + 1;
    }
    assert(stable_sort_by(r@, orig, key, p));
    r
}

} // verus!
