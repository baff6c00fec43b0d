//! Directory listings and their order: directories first, then
//! alphabetically by lower-cased name, with ties kept in listing order.
use vstd::prelude::*;

use crate::text::{
    chars_less, chars_lt, chars_of, lemma_chars_lt_irreflexive, lemma_chars_lt_total,
    lemma_chars_lt_transitive, lowercase, to_lowercase,
};

verus! {

/// A local directory entry.
#[derive(Clone, Debug)]
pub struct LocalEntry {
    pub name: String,
    pub is_dir: bool,
    pub size: u64,
}

/// A remote directory entry.
#[derive(Clone, Debug)]
pub struct RemoteEntry {
    pub name: String,
    pub is_dir: bool,
    pub size: u64,
    /// Unix permission bits, if the server returned them.
    pub permissions: Option<u32>,
}

/// The key that orders entries: whether the entry is not a directory, then
/// its lower-cased name.
pub type KeyView = (bool, Seq<char>);

/// "Strictly before" on keys: directories before files, then names in
/// lexicographic order.
pub open spec fn key_lt(a: KeyView, b: KeyView) -> bool {
    (!a.0 && b.0) || (a.0 == b.0 && chars_lt(a.1, b.1))
}

/// Whether no entry of `s` has a key strictly before that of an entry
/// before it.
pub open spec fn sorted_by<E>(s: Seq<E>, key: spec_fn(E) -> KeyView) -> bool {
    forall|i: int, j: int| 0 <= i < j < s.len() ==> !key_lt(key(s[j]), key(s[i]))
}

/// The entries of `s` whose key is `k`, in order.
pub open spec fn key_class<E>(s: Seq<E>, key: spec_fn(E) -> KeyView, k: KeyView) -> Seq<E> {
    s.filter(|e: E| key(e) == k)
}

/// `out` is `orig` sorted stably by `key`: sorted, and entries of equal key
/// come in the order they had in `orig` (which also makes `out` a
/// rearrangement of `orig`).
pub open spec fn stable_sort_of<E>(orig: Seq<E>, out: Seq<E>, key: spec_fn(E) -> KeyView) -> bool {
    &&& sorted_by(out, key)
    &&& forall|k: KeyView| #[trigger] key_class(out, key, k) == key_class(orig, key, k)
}

/// The sort key of a remote entry.
pub open spec fn remote_key() -> spec_fn(RemoteEntry) -> KeyView {
    |e: RemoteEntry| (!e.is_dir, lowercase(e.name@))
}

/// The sort key of a local entry.
pub open spec fn local_key() -> spec_fn(LocalEntry) -> KeyView {
    |e: LocalEntry| (!e.is_dir, lowercase(e.name@))
}

// ---------------------------------------------------------------------------
// The key order is a strict total order
// ---------------------------------------------------------------------------

proof fn lemma_key_lt_irreflexive(a: KeyView)
    ensures
        !key_lt(a, a),
{
    lemma_chars_lt_irreflexive(a.1);
}

proof fn lemma_key_lt_transitive(a: KeyView, b: KeyView, c: KeyView)
    requires
        key_lt(a, b),
        key_lt(b, c),
    ensures
        key_lt(a, c),
{
    if a.0 == b.0 && b.0 == c.0 {
        lemma_chars_lt_transitive(a.1, b.1, c.1);
    }
}

proof fn lemma_key_lt_asymmetric(a: KeyView, b: KeyView)
    requires
        key_lt(a, b),
    ensures
        !key_lt(b, a),
{
    if key_lt(b, a) {
        lemma_key_lt_transitive(a, b, a);
        lemma_key_lt_irreflexive(a);
    }
}

proof fn lemma_key_lt_total(a: KeyView, b: KeyView)
    ensures
        a == b || key_lt(a, b) || key_lt(b, a),
{
    lemma_chars_lt_total(a.1, b.1);
}

// ---------------------------------------------------------------------------
// Inserting one entry keeps a stable sort
// ---------------------------------------------------------------------------

proof fn lemma_filter_none<E>(s: Seq<E>, pred: spec_fn(E) -> bool)
    requires
        forall|i: int| 0 <= i < s.len() ==> !pred(s[i]),
    ensures
        s.filter(pred) == Seq::<E>::empty(),
    decreases s.len(),
{
    reveal(Seq::filter);
    if s.len() > 0 {
        lemma_filter_none(s.drop_last(), pred);
    }
    assert(s.filter(pred) =~= Seq::<E>::empty());
}

proof fn lemma_filter_push<E>(s: Seq<E>, x: E, pred: spec_fn(E) -> bool)
    ensures
        s.push(x).filter(pred) == (if pred(x) {
            s.filter(pred).push(x)
        } else {
            s.filter(pred)
        }),
{
    reveal(Seq::filter);
    assert(s.push(x).drop_last() =~= s);
}

proof fn lemma_insert_stable<E>(
    orig: Seq<E>,
    out: Seq<E>,
    x: E,
    p: int,
    key: spec_fn(E) -> KeyView,
)
    requires
        stable_sort_of(orig, out, key),
        0 <= p <= out.len(),
        forall|j: int| 0 <= j < p ==> !key_lt(key(x), key(#[trigger] out[j])),
        forall|j: int| p <= j < out.len() ==> key_lt(key(x), key(#[trigger] out[j])),
    ensures
        stable_sort_of(orig.push(x), out.insert(p, x), key),
{
    let new = out.insert(p, x);
    out.insert_ensures(p, x);
    // sorted
    assert forall|i: int, j: int| 0 <= i < j < new.len() implies !key_lt(
        key(new[j]),
        key(new[i]),
    ) by {
        if i == p {
            assert(new[j] == out[j - 1]);
            lemma_key_lt_asymmetric(key(x), key(out[j - 1]));
        } else if j == p {
            assert(new[i] == out[i]);
        } else {
            let i2 = if i < p {
                i
            } else {
                i - 1
            };
            let j2 = if j < p {
                j
            } else {
                j - 1
            };
            assert(new[i] == out[i2]);
            assert(new[j] == out[j2]);
        }
    }
    // classes of equal keys
    let front = out.subrange(0, p);
    let back = out.subrange(p, out.len() as int);
    assert(new == front.push(x) + back);
    assert(out =~= front + back);
    assert forall|k: KeyView| #[trigger] key_class(new, key, k) == key_class(orig.push(x), key, k) by {
        let pred = |e: E| key(e) == k;
        Seq::filter_distributes_over_add(front.push(x), back, pred);
        Seq::filter_distributes_over_add(front, back, pred);
        lemma_filter_push(front, x, pred);
        lemma_filter_push(orig, x, pred);
        assert(key_class(out, key, k) == key_class(orig, key, k));
        if key(x) == k {
            assert forall|i: int| 0 <= i < back.len() implies !pred(back[i]) by {
                assert(back[i] == out[p + i]);
                lemma_key_lt_irreflexive(k);
            }
            lemma_filter_none(back, pred);
            assert(front.filter(pred).push(x) + Seq::<E>::empty() =~= front.filter(pred).push(x));
            assert(front.filter(pred) + Seq::<E>::empty() =~= front.filter(pred));
        }
    }
}

// ---------------------------------------------------------------------------
// Sorting
// ---------------------------------------------------------------------------

/// The key of an entry as computed for sorting.
pub struct SortKey {
    pub is_file: bool,
    pub lower: Vec<char>,
}

impl View for SortKey {
    type V = KeyView;

    open spec fn view(&self) -> KeyView {
        (self.is_file, self.lower@)
    }
}

/// Whether key `a` comes strictly before key `b`.
fn key_less(a: &SortKey, b: &SortKey) -> (r: bool)
    ensures
        r == key_lt(a@, b@),
{
    if !a.is_file && b.is_file {
        true
    } else if a.is_file == b.is_file {
        chars_less(&a.lower, &b.lower)
    } else {
        false
    }
}

/// The sort key of an entry with the given name and kind.
fn sort_key(name: &String, is_dir: bool) -> (r: SortKey)
    ensures
        r@ == (!is_dir, lowercase(name@)),
{
    let lower = to_lowercase(name.as_str());
    SortKey { is_file: !is_dir, lower: chars_of(lower.as_str()) }
}

/// Sorts `items` stably by the keys `keys` computed for them.
fn stable_sort_by_keys<E>(
    items: Vec<E>,
    keys: Vec<SortKey>,
    Ghost(key): Ghost<spec_fn(E) -> KeyView>,
) -> (r: Vec<E>)
    requires
        items@.len() == keys@.len(),
        forall|i: int| 0 <= i < items@.len() ==> #[trigger] keys@[i]@ == key(items@[i]),
    ensures
        stable_sort_of(items@, r@, key),
        r@.to_multiset() == items@.to_multiset(),
{
    broadcast use vstd::seq_lib::group_to_multiset_ensures;

    let ghost orig = items@;
    let ghost n = orig.len();
    let mut out: Vec<E> = Vec::new();
    let mut out_keys: Vec<SortKey> = Vec::new();
    let mut rest = items;
    let mut rest_keys = keys;
    let mut i: usize = 0;
    let len0 = rest.len();
    proof {
        reveal(Seq::filter);
        assert(len0 == n);
        assert(orig.take(0) =~= Seq::<E>::empty());
        assert(rest@ =~= orig.skip(0));
        assert forall|k: KeyView| #[trigger] key_class(out@, key, k) == key_class(
            orig.take(0),
            key,
            k,
        ) by {}
    }
    while rest.len() > 0
        invariant
            n == orig.len(),
            n <= usize::MAX,
            i + rest@.len() == n,
            rest@ == orig.skip(i as int),
            rest_keys@.len() == rest@.len(),
            forall|j: int| 0 <= j < rest@.len() ==> #[trigger] rest_keys@[j]@ == key(rest@[j]),
            out_keys@.len() == out@.len(),
            forall|j: int| 0 <= j < out@.len() ==> #[trigger] out_keys@[j]@ == key(out@[j]),
            stable_sort_of(orig.take(i as int), out@, key),
            out@.to_multiset() == orig.take(i as int).to_multiset(),
        decreases rest.len(),
    {
        let ghost rest_before = rest@;
        let ghost rest_keys_before = rest_keys@;
        let x = rest.remove(0);
        let kx = rest_keys.remove(0);
        proof {
            assert(x == orig[i as int]) by {
                assert(rest_before[0] == orig.skip(i as int)[0]);
            }
            assert(kx@ == key(x)) by {
                assert(rest_keys_before[0]@ == key(rest_before[0]));
            }
            assert(rest@ =~= orig.skip(i + 1));
            assert forall|j: int| 0 <= j < rest@.len() implies #[trigger] rest_keys@[j]@ == key(
                rest@[j],
            ) by {
                assert(rest_keys@[j] == rest_keys_before[j + 1]);
                assert(rest@[j] == rest_before[j + 1]);
            }
            assert(orig.take(i + 1) =~= orig.take(i as int).push(x));
        }
        // the place of x: after every entry whose key is not after its own
        let mut p: usize = 0;
        let mut found = false;
        while p < out.len() && !found
            invariant
                p <= out@.len(),
                out_keys@.len() == out@.len(),
                forall|j: int| 0 <= j < out@.len() ==> #[trigger] out_keys@[j]@ == key(out@[j]),
                forall|j: int| 0 <= j < p ==> !key_lt(key(x), key(#[trigger] out@[j])),
                found ==> p < out@.len() && key_lt(key(x), key(out@[p as int])),
                kx@ == key(x),
            decreases out@.len() - p + (if found {
                0int
            } else {
                1int
            }),
        {
            if key_less(&kx, &out_keys[p]) {
                found = true;
            } else {
                p = p + 1;
            }
        }
        proof {
            let o = out@;
            assert forall|j: int| p <= j < o.len() implies key_lt(key(x), key(#[trigger] o[j])) by {
                // o is sorted, so every key from p on is not before the key at p
                if j > p {
                    assert(!key_lt(key(o[j]), key(o[p as int])));
                    lemma_key_lt_total(key(o[j]), key(o[p as int]));
                    if key(o[j]) != key(o[p as int]) {
                        lemma_key_lt_transitive(key(x), key(o[p as int]), key(o[j]));
                    }
                }
            }
            lemma_insert_stable(orig.take(i as int), o, x, p as int, key);
        }
        let ghost out_before = out@;
        let ghost out_keys_before = out_keys@;
        out.insert(p, x);
        out_keys.insert(p, kx);
        proof {
            assert(out@ == out_before.insert(p as int, x));
            vstd::seq_lib::to_multiset_insert(out_before, p as int, x);
            vstd::seq_lib::to_multiset_build(orig.take(i as int), x);
            out_before.insert_ensures(p as int, x);
            out_keys_before.insert_ensures(p as int, kx);
            assert forall|j: int| 0 <= j < out@.len() implies #[trigger] out_keys@[j]@ == key(
                out@[j],
            ) by {
                if j < p {
                    assert(out_keys@[j] == out_keys_before[j]);
                } else if j > p {
                    assert(out_keys@[j] == out_keys_before[j - 1]);
                    assert(out@[j] == out_before[j - 1]);
                }
            }
        }
        i = i + 1;
    }
    proof {
        assert(orig.take(i as int) =~= orig);
    }
    out
}

/// Sorts a remote listing: directories first, then alphabetically by
/// lower-cased name; entries of equal key keep their listing order.
pub fn sort_remote_entries(entries: Vec<RemoteEntry>) -> (r: Vec<RemoteEntry>)
    ensures
        stable_sort_of(entries@, r@, remote_key()),
        r@.to_multiset() == entries@.to_multiset(),
{
    let mut keys: Vec<SortKey> = Vec::new();
    let mut i: usize = 0;
    while i < entries.len()
        invariant
            i <= entries@.len(),
            keys@.len() == i,
            forall|j: int| 0 <= j < i ==> #[trigger] keys@[j]@ == remote_key()(entries@[j]),
        decreases entries.len() - i,
    {
        let k = sort_key(&entries[i].name, entries[i].is_dir);
        keys.push(k);
        i = i + 1;
    }
    stable_sort_by_keys(entries, keys, Ghost(remote_key()))
}

/// Sorts a local listing: directories first, then alphabetically by
/// lower-cased name; entries of equal key keep their listing order.
pub fn sort_local_entries(entries: Vec<LocalEntry>) -> (r: Vec<LocalEntry>)
    ensures
        stable_sort_of(entries@, r@, local_key()),
        r@.to_multiset() == entries@.to_multiset(),
{
    let mut keys: Vec<SortKey> = Vec::new();
    let mut i: usize = 0;
    while i < entries.len()
        invariant
            i <= entries@.len(),
            keys@.len() == i,
            forall|j: int| 0 <= j < i ==> #[trigger] keys@[j]@ == local_key()(entries@[j]),
        decreases entries.len() - i,
    {
        let k = sort_key(&entries[i].name, entries[i].is_dir);
        keys.push(k);
        i = i + 1;
    }
    stable_sort_by_keys(entries, keys, Ghost(local_key()))
}

/// In a sorted remote listing every directory comes before every file.
pub proof fn law_directories_first(s: Seq<RemoteEntry>, i: int, j: int)
    requires
        sorted_by(s, remote_key()),
        0 <= i < j < s.len(),
        s[j].is_dir,
    ensures
        s[i].is_dir,
{
    assert(!key_lt(remote_key()(s[j]), remote_key()(s[i])));
}

proof fn lemma_class_of_member<E>(s: Seq<E>, key: spec_fn(E) -> KeyView, j: int)
    requires
        0 <= j < s.len(),
    ensures
        key_class(s, key, key(s[j])).len() > 0,
    decreases s.len(),
{
    reveal(Seq::filter);
    if j < s.len() - 1 {
        lemma_class_of_member(s.drop_last(), key, j);
    }
}

proof fn lemma_member_of_class<E>(s: Seq<E>, key: spec_fn(E) -> KeyView, k: KeyView)
    requires
        key_class(s, key, k).len() > 0,
    ensures
        exists|j: int| 0 <= j < s.len() && key(s[j]) == k,
    decreases s.len(),
{
    reveal(Seq::filter);
    if s.len() > 0 && key(s.last()) != k {
        lemma_member_of_class(s.drop_last(), key, k);
        let j = choose|j: int| 0 <= j < s.drop_last().len() && key(s.drop_last()[j]) == k;
        assert(s[j] == s.drop_last()[j]);
    }
}

proof fn lemma_class_drop_last<E>(s: Seq<E>, key: spec_fn(E) -> KeyView, k: KeyView)
    requires
        s.len() > 0,
    ensures
        key_class(s.drop_last(), key, k) == (if key(s.last()) == k {
            key_class(s, key, k).drop_last()
        } else {
            key_class(s, key, k)
        }),
        key(s.last()) == k ==> key_class(s, key, k).len() > 0 && key_class(s, key, k).last()
            == s.last(),
{
    reveal(Seq::filter);
}

/// A stable sort leaves no choice: two listings sorted by the same key whose
/// entries of each key come in the same order are the same listing. So the
/// result of sorting is determined by what is sorted.
pub proof fn law_stable_sort_unique<E>(a: Seq<E>, b: Seq<E>, key: spec_fn(E) -> KeyView)
    requires
        sorted_by(a, key),
        sorted_by(b, key),
        forall|k: KeyView| #[trigger] key_class(a, key, k) == key_class(b, key, k),
    ensures
        a == b,
    decreases a.len() + b.len(),
{
    if a.len() == 0 && b.len() == 0 {
        assert(a =~= b);
    } else if a.len() == 0 {
        lemma_class_of_member(b, key, 0);
        assert(key_class(a, key, key(b[0])) == key_class(b, key, key(b[0])));
        reveal(Seq::filter);
        assert(key_class(a, key, key(b[0])).len() == 0);
    } else if b.len() == 0 {
        lemma_class_of_member(a, key, 0);
        assert(key_class(a, key, key(a[0])) == key_class(b, key, key(a[0])));
        reveal(Seq::filter);
        assert(key_class(b, key, key(a[0])).len() == 0);
    } else {
        let ma = key(a.last());
        let mb = key(b.last());
        // the last keys are both the greatest key present
        lemma_class_of_member(b, key, b.len() - 1);
        assert(key_class(a, key, mb) == key_class(b, key, mb));
        lemma_member_of_class(a, key, mb);
        let ja = choose|j: int| 0 <= j < a.len() && key(a[j]) == mb;
        if ja < a.len() - 1 {
            assert(!key_lt(key(a[a.len() - 1]), key(a[ja])));
        } else {
            lemma_key_lt_irreflexive(ma);
        }
        lemma_class_of_member(a, key, a.len() - 1);
        assert(key_class(a, key, ma) == key_class(b, key, ma));
        lemma_member_of_class(b, key, ma);
        let jb = choose|j: int| 0 <= j < b.len() && key(b[j]) == ma;
        if jb < b.len() - 1 {
            assert(!key_lt(key(b[b.len() - 1]), key(b[jb])));
        } else {
            lemma_key_lt_irreflexive(mb);
        }
        lemma_key_lt_total(ma, mb);
        assert(ma == mb);
        // so the last entries are the last of that class
        lemma_class_drop_last(a, key, ma);
        lemma_class_drop_last(b, key, ma);
        assert(key_class(a, key, ma) == key_class(b, key, ma));
        assert(a.last() == b.last());
        // and what comes before is sorted the same way
        let a0 = a.drop_last();
        let b0 = b.drop_last();
        assert forall|k: KeyView| #[trigger] key_class(a0, key, k) == key_class(b0, key, k) by {
            lemma_class_drop_last(a, key, k);
            lemma_class_drop_last(b, key, k);
            assert(key_class(a, key, k) == key_class(b, key, k));
        }
        assert(sorted_by(a0, key)) by {
            assert forall|i: int, j: int| 0 <= i < j < a0.len() implies !key_lt(
                key(a0[j]),
                key(a0[i]),
            ) by {
                assert(a0[i] == a[i] && a0[j] == a[j]);
            }
        }
        assert(sorted_by(b0, key)) by {
            assert forall|i: int, j: int| 0 <= i < j < b0.len() implies !key_lt(
                key(b0[j]),
                key(b0[i]),
            ) by {
                assert(b0[i] == b[i] && b0[j] == b[j]);
            }
        }
        law_stable_sort_unique(a0, b0, key);
        assert(a =~= a0.push(a.last()));
        assert(b =~= b0.push(b.last()));
    }
}

} // verus!
