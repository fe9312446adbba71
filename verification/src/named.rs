//! Lists of items with distinct names, seen as maps from name to item.

use vstd::prelude::*;

verus! {

/// Whether no two items of `s` have the same name.
pub open spec fn names_unique<T>(s: Seq<T>, name: spec_fn(T) -> Seq<char>) -> bool {
    forall|i: int, j: int| 0 <= i < s.len() && 0 <= j < s.len() && i != j ==> name(#[trigger] s[i]) != name(#[trigger] s[j])
}

/// Whether an item of `s` has the name `k`.
pub open spec fn has_name<T>(s: Seq<T>, name: spec_fn(T) -> Seq<char>, k: Seq<char>) -> bool {
    exists|i: int| 0 <= i < s.len() && name(#[trigger] s[i]) == k
}

/// The items of `s`, by name, each taken by `view`.
pub open spec fn by_name<T, V>(s: Seq<T>, name: spec_fn(T) -> Seq<char>, view: spec_fn(T) -> V) -> Map<Seq<char>, V> {
    Map::new(
        |k: Seq<char>| has_name(s, name, k),
        |k: Seq<char>| view(s[choose|i: int| 0 <= i < s.len() && name(#[trigger] s[i]) == k]),
    )
}

/// The item at `i` is found under its name.
pub proof fn lemma_by_name_at<T, V>(s: Seq<T>, name: spec_fn(T) -> Seq<char>, view: spec_fn(T) -> V, i: int)
    requires
        names_unique(s, name),
        0 <= i < s.len(),
    ensures
        by_name(s, name, view).contains_key(name(s[i])),
        by_name(s, name, view)[name(s[i])] == view(s[i]),
{
    let k = name(s[i]);
    assert(has_name(s, name, k));
    let j = choose|j: int| 0 <= j < s.len() && name(#[trigger] s[j]) == k;
    assert(j == i);
}

/// Adding an item under a new name adds it to the map.
pub proof fn lemma_by_name_push<T, V>(s: Seq<T>, name: spec_fn(T) -> Seq<char>, view: spec_fn(T) -> V, x: T)
    requires
        names_unique(s, name),
        !has_name(s, name, name(x)),
    ensures
        names_unique(s.push(x), name),
        by_name(s.push(x), name, view) == by_name(s, name, view).insert(name(x), view(x)),
{
    let t = s.push(x);
    assert(names_unique(t, name)) by {
        assert forall|i: int, j: int| 0 <= i < t.len() && 0 <= j < t.len() && i != j implies name(#[trigger] t[i]) != name(#[trigger] t[j]) by {
            if i == s.len() {
                assert(t[j] == s[j]);
            } else if j == s.len() {
                assert(t[i] == s[i]);
            } else {
                assert(t[i] == s[i] && t[j] == s[j]);
            }
        }
    }
    let m = by_name(s, name, view).insert(name(x), view(x));
    assert forall|k: Seq<char>| #[trigger] by_name(t, name, view).contains_key(k) <==> m.contains_key(k) by {
        if has_name(s, name, k) {
            let i = choose|i: int| 0 <= i < s.len() && name(#[trigger] s[i]) == k;
            assert(t[i] == s[i]);
        }
        if has_name(t, name, k) && k != name(x) {
            let i = choose|i: int| 0 <= i < t.len() && name(#[trigger] t[i]) == k;
            assert(i < s.len());
            assert(s[i] == t[i]);
        }
        assert(t[s.len() as int] == x);
    }
    assert forall|k: Seq<char>| #[trigger] by_name(t, name, view).contains_key(k) implies by_name(t, name, view)[k] == m[k] by {
        let i = choose|i: int| 0 <= i < t.len() && name(#[trigger] t[i]) == k;
        lemma_by_name_at(t, name, view, i);
        if i < s.len() {
            assert(s[i] == t[i]);
            lemma_by_name_at(s, name, view, i);
        } else {
            assert(t[i] == x);
        }
    }
    assert(by_name(t, name, view) =~= m);
}

/// Replacing an item by one of the same name replaces it in the map.
pub proof fn lemma_by_name_update<T, V>(s: Seq<T>, name: spec_fn(T) -> Seq<char>, view: spec_fn(T) -> V, i: int, x: T)
    requires
        names_unique(s, name),
        0 <= i < s.len(),
        name(x) == name(s[i]),
    ensures
        names_unique(s.update(i, x), name),
        by_name(s.update(i, x), name, view) == by_name(s, name, view).insert(name(x), view(x)),
{
    let t = s.update(i, x);
    assert(names_unique(t, name)) by {
        assert forall|a: int, b: int| 0 <= a < t.len() && 0 <= b < t.len() && a != b implies name(#[trigger] t[a]) != name(#[trigger] t[b]) by {
            assert(name(t[a]) == name(s[a]));
            assert(name(t[b]) == name(s[b]));
        }
    }
    let m = by_name(s, name, view).insert(name(x), view(x));
    assert forall|k: Seq<char>| #[trigger] by_name(t, name, view).contains_key(k) <==> m.contains_key(k) by {
        if has_name(s, name, k) {
            let j = choose|j: int| 0 <= j < s.len() && name(#[trigger] s[j]) == k;
            assert(name(t[j]) == name(s[j]));
        }
        if has_name(t, name, k) {
            let j = choose|j: int| 0 <= j < t.len() && name(#[trigger] t[j]) == k;
            assert(name(t[j]) == name(s[j]));
        }
        assert(name(t[i]) == name(x));
        lemma_by_name_at(s, name, view, i);
    }
    assert forall|k: Seq<char>| #[trigger] by_name(t, name, view).contains_key(k) implies by_name(t, name, view)[k] == m[k] by {
        let j = choose|j: int| 0 <= j < t.len() && name(#[trigger] t[j]) == k;
        lemma_by_name_at(t, name, view, j);
        if j != i {
            assert(s[j] == t[j]);
            lemma_by_name_at(s, name, view, j);
        }
    }
    assert(by_name(t, name, view) =~= m);
}

/// Removing an item removes its name from the map.
pub proof fn lemma_by_name_remove<T, V>(s: Seq<T>, name: spec_fn(T) -> Seq<char>, view: spec_fn(T) -> V, i: int)
    requires
        names_unique(s, name),
        0 <= i < s.len(),
    ensures
        names_unique(s.remove(i), name),
        by_name(s.remove(i), name, view) == by_name(s, name, view).remove(name(s[i])),
{
    let t = s.remove(i);
    let at = |j: int| if j < i { j } else { j + 1 };
    assert forall|j: int| 0 <= j < t.len() implies #[trigger] t[j] == s[at(j)] by {}
    assert(names_unique(t, name)) by {
        assert forall|a: int, b: int| 0 <= a < t.len() && 0 <= b < t.len() && a != b implies name(#[trigger] t[a]) != name(#[trigger] t[b]) by {
            assert(t[a] == s[at(a)]);
            assert(t[b] == s[at(b)]);
        }
    }
    let m = by_name(s, name, view).remove(name(s[i]));
    assert forall|k: Seq<char>| #[trigger] by_name(t, name, view).contains_key(k) <==> m.contains_key(k) by {
        if has_name(s, name, k) && k != name(s[i]) {
            let j = choose|j: int| 0 <= j < s.len() && name(#[trigger] s[j]) == k;
            assert(j != i);
            let jj = if j < i { j } else { j - 1 };
            assert(t[jj] == s[at(jj)]);
        }
        if has_name(t, name, k) {
            let j = choose|j: int| 0 <= j < t.len() && name(#[trigger] t[j]) == k;
            assert(t[j] == s[at(j)]);
            assert(at(j) != i);
        }
    }
    assert forall|k: Seq<char>| #[trigger] by_name(t, name, view).contains_key(k) implies by_name(t, name, view)[k] == m[k] by {
        let j = choose|j: int| 0 <= j < t.len() && name(#[trigger] t[j]) == k;
        lemma_by_name_at(t, name, view, j);
        assert(t[j] == s[at(j)]);
        lemma_by_name_at(s, name, view, at(j));
    }
    assert(by_name(t, name, view) =~= m);
}

} // verus!
