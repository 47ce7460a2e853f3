//! Identities are opaque text tokens. A list of them without repeats stands
//! for a set of identities.
use vstd::prelude::*;

verus! {

/// The identities that a list holds, as sequences of characters.
pub open spec fn ids(v: Seq<String>) -> Seq<Seq<char>> {
    v.map_values(|s: String| s@)
}

/// The set of identities that a list holds.
pub open spec fn id_set(v: Seq<String>) -> Set<Seq<char>> {
    ids(v).to_set()
}

/// No identity occurs twice in the list.
pub open spec fn unique_ids(v: Seq<String>) -> bool {
    ids(v).no_duplicates()
}

/// Position of `id` in `v`, if it occurs there.
pub fn position_of(v: &Vec<String>, id: &String) -> (r: Option<usize>)
    ensures
        match r {
            Some(i) => i < v@.len() && v@[i as int]@ == id@,
            None => !id_set(v@).contains(id@),
        },
{
    let mut i: usize = 0;
    while i < v.len()
        invariant
            i <= v@.len(),
            forall|j: int| 0 <= j < i ==> v@[j]@ != id@,
        decreases v@.len() - i,
    {
        if v[i] == *id {
            return Some(i);
        }
        i = i + 1;
    }
    proof {
        if ids(v@).contains(id@) {
            let j = choose|j: int| 0 <= j < ids(v@).len() && ids(v@)[j] == id@;
            assert(v@[j]@ == id@);
        }
    }
    None
}

/// Whether `id` occurs in `v`.
pub fn contains_id(v: &Vec<String>, id: &String) -> (r: bool)
    ensures
        r == id_set(v@).contains(id@),
{
    match position_of(v, id) {
        Some(i) => {
            proof {
                assert(ids(v@)[i as int] == id@);
            }
            true
        },
        None => false,
    }
}

/// Appending an identity that is not in the list keeps the list free of
/// repeats and adds the identity to its set.
pub proof fn lemma_push_id(v: Seq<String>, s: String)
    requires
        unique_ids(v),
        !id_set(v).contains(s@),
    ensures
        unique_ids(v.push(s)),
        id_set(v.push(s)) == id_set(v).insert(s@),
        ids(v.push(s)).len() == v.len() + 1,
{
    assert(ids(v.push(s)) =~= ids(v).push(s@));
    assert(id_set(v.push(s)) =~= id_set(v).insert(s@)) by {
        assert forall|x: Seq<char>| #[trigger] id_set(v.push(s)).contains(x) implies id_set(v).insert(s@).contains(x) by {
            let j = choose|j: int| 0 <= j < ids(v.push(s)).len() && ids(v.push(s))[j] == x;
            if j < v.len() {
                assert(ids(v)[j] == x);
            }
        }
        assert forall|x: Seq<char>| #[trigger] id_set(v).insert(s@).contains(x) implies id_set(v.push(s)).contains(x) by {
            if x == s@ {
                assert(ids(v.push(s))[v.len() as int] == x);
            } else {
                let j = choose|j: int| 0 <= j < ids(v).len() && ids(v)[j] == x;
                assert(ids(v.push(s))[j] == x);
            }
        }
    }
}

/// Removing the entry at `i` of a list without repeats removes exactly that
/// identity from its set.
pub proof fn lemma_remove_id(v: Seq<String>, i: int)
    requires
        unique_ids(v),
        0 <= i < v.len(),
    ensures
        unique_ids(v.remove(i)),
        id_set(v.remove(i)) == id_set(v).remove(v[i]@),
{
    let w = v.remove(i);
    assert(ids(w) =~= ids(v).remove(i));
    assert(ids(v)[i] == v[i]@);
    assert(id_set(w) =~= id_set(v).remove(v[i]@)) by {
        assert forall|x: Seq<char>| #[trigger] id_set(w).contains(x) implies id_set(v).remove(v[i]@).contains(x) by {
            let j = choose|j: int| 0 <= j < ids(w).len() && ids(w)[j] == x;
            if j < i {
                assert(ids(v)[j] == x);
                assert(ids(v)[j] != ids(v)[i]);
            } else {
                assert(ids(v)[j + 1] == x);
                assert(ids(v)[j + 1] != ids(v)[i]);
            }
        }
        assert forall|x: Seq<char>| #[trigger] id_set(v).remove(v[i]@).contains(x) implies id_set(w).contains(x) by {
            let j = choose|j: int| 0 <= j < ids(v).len() && ids(v)[j] == x;
            assert(j != i);
            if j < i {
                assert(ids(w)[j] == x);
            } else {
                assert(ids(w)[j - 1] == x);
            }
        }
    }
}

/// A list without repeats holds as many entries as its set has members.
pub proof fn lemma_unique_len(v: Seq<String>)
    requires
        unique_ids(v),
    ensures
        id_set(v).len() == v.len(),
{
    ids(v).unique_seq_to_set();
}

/// A copy of the list, entry by entry.
pub fn copy_ids(v: &Vec<String>) -> (r: Vec<String>)
    ensures
        r@ == v@,
{
    let mut r: Vec<String> = Vec::new();
    let mut i: usize = 0;
    while i < v.len()
        invariant
            i <= v@.len(),
            r@ == v@.subrange(0, i as int),
        decreases v@.len() - i,
    {
        r.push(v[i].clone());
        i = i + 1;
    }
    assert(v@.subrange(0, v@.len() as int) =~= v@);
    r
}

} // verus!
