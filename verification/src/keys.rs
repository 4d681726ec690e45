use vstd::prelude::*;

use crate::text::{concat3, str_eq};

verus! {

/// The character sequences of a list of strings.
pub open spec fn views(v: Seq<String>) -> Seq<Seq<char>> {
    v.map_values(|s: String| s@)
}

/// The number of different keys in a list, counting each key once, which is
/// the size of the set of its keys.
pub open spec fn distinct_count(s: Seq<Seq<char>>) -> nat
    decreases s.len(),
{
    if s.len() == 0 {
        0
    } else if s.drop_last().contains(s.last()) {
        distinct_count(s.drop_last())
    } else {
        distinct_count(s.drop_last()) + 1
    }
}

pub proof fn lemma_distinct_count_is_set_size(s: Seq<Seq<char>>)
    ensures
        distinct_count(s) == s.to_set().len(),
        s.to_set().finite(),
    decreases s.len(),
{
    if s.len() == 0 {
        assert(s.to_set() =~= Set::<Seq<char>>::empty());
    } else {
        let p = s.drop_last();
        lemma_distinct_count_is_set_size(p);
        assert(s.to_set() =~= p.to_set().insert(s.last())) by {
            assert forall|x: Seq<char>| s.to_set().contains(x) implies p.to_set().insert(
                s.last(),
            ).contains(x) by {
                let i = choose|i: int| 0 <= i < s.len() && s[i] == x;
                if i < p.len() {
                    assert(p[i] == x);
                }
            }
            assert forall|x: Seq<char>| p.to_set().insert(s.last()).contains(x) implies s.to_set().contains(
                x,
            ) by {
                if x == s.last() {
                    assert(s[s.len() - 1] == x);
                } else {
                    let i = choose|i: int| 0 <= i < p.len() && p[i] == x;
                    assert(s[i] == x);
                }
            }
        }
    }
}

/// Whether `key` is one of the strings of `v`.
pub fn contains_key(v: &Vec<String>, key: &str) -> (r: bool)
    ensures
        r == views(v@).contains(key@),
{
    let mut i: usize = 0;
    while i < v.len()
        invariant
            i <= v.len(),
            forall|j: int| 0 <= j < i ==> v@[j]@ != key@,
        decreases v.len() - i,
    {
        if str_eq(v[i].as_str(), key) {
            assert(views(v@)[i as int] == key@);
            return true;
        }
        i = i + 1;
    }
    proof {
        if views(v@).contains(key@) {
            let j = choose|j: int| 0 <= j < views(v@).len() && views(v@)[j] == key@;
            assert(v@[j]@ == key@);
        }
    }
    false
}

/// Whether two lists hold the same keys, as sets: order and repetition aside.
pub fn same_keys(a: &Vec<String>, b: &Vec<String>) -> (r: bool)
    ensures
        r == (views(a@).to_set() == views(b@).to_set()),
{
    let mut i: usize = 0;
    while i < a.len()
        invariant
            i <= a.len(),
            forall|j: int| 0 <= j < i ==> views(b@).contains(#[trigger] views(a@)[j]),
        decreases a.len() - i,
    {
        if !contains_key(b, a[i].as_str()) {
            proof {
                assert(views(a@).to_set().contains(views(a@)[i as int]));
                assert(!views(b@).to_set().contains(views(a@)[i as int]));
            }
            return false;
        }
        i = i + 1;
    }
    let mut k: usize = 0;
    while k < b.len()
        invariant
            k <= b.len(),
            forall|j: int| 0 <= j < a.len() ==> views(b@).contains(#[trigger] views(a@)[j]),
            forall|j: int| 0 <= j < k ==> views(a@).contains(#[trigger] views(b@)[j]),
        decreases b.len() - k,
    {
        if !contains_key(a, b[k].as_str()) {
            proof {
                assert(views(b@).to_set().contains(views(b@)[k as int]));
                assert(!views(a@).to_set().contains(views(b@)[k as int]));
            }
            return false;
        }
        k = k + 1;
    }
    proof {
        assert forall|x: Seq<char>| views(a@).to_set().contains(x) <==> views(b@).to_set().contains(
            x,
        ) by {
            if views(a@).contains(x) {
                let j = choose|j: int| 0 <= j < views(a@).len() && views(a@)[j] == x;
                assert(views(b@).contains(views(a@)[j]));
            }
            if views(b@).contains(x) {
                let j = choose|j: int| 0 <= j < views(b@).len() && views(b@)[j] == x;
                assert(views(a@).contains(views(b@)[j]));
            }
        }
        assert(views(a@).to_set() =~= views(b@).to_set());
    }
    true
}

/// The number of different keys in a list.
pub fn count_distinct(v: &Vec<String>) -> (r: usize)
    ensures
        r == distinct_count(views(v@)),
        r == views(v@).to_set().len(),
{
    let mut seen: Vec<String> = Vec::new();
    let mut i: usize = 0;
    while i < v.len()
        invariant
            i <= v.len(),
            views(seen@).to_set() == views(v@).take(i as int).to_set(),
            seen.len() == distinct_count(views(v@).take(i as int)),
            seen.len() <= i,
        decreases v.len() - i,
    {
        let ghost pre = views(v@).take(i as int);
        let ghost post = views(v@).take(i + 1);
        assert(post.drop_last() =~= pre);
        assert(post.last() == v@[i as int]@);
        let present = contains_key(&seen, v[i].as_str());
        proof {
            assert(present == views(seen@).to_set().contains(v@[i as int]@));
            assert(present == pre.contains(v@[i as int]@));
        }
        if !present {
            let ghost old_seen = seen@;
            seen.push(v[i].clone());
            proof {
                assert(views(seen@) =~= views(old_seen).push(v@[i as int]@));
                assert forall|x: Seq<char>| views(seen@).to_set().contains(x) <==> post.to_set().contains(x) by {
                    if views(seen@).contains(x) {
                        let j = choose|j: int| 0 <= j < views(seen@).len() && views(seen@)[j] == x;
                        if j < old_seen.len() {
                            assert(views(old_seen)[j] == x);
                            assert(views(old_seen).to_set().contains(x));
                            let t = choose|t: int| 0 <= t < pre.len() && pre[t] == x;
                            assert(post[t] == x);
                        } else {
                            assert(post[i as int] == x);
                        }
                    }
                    if post.contains(x) {
                        let t = choose|t: int| 0 <= t < post.len() && post[t] == x;
                        if t < i {
                            assert(pre[t] == x);
                            assert(pre.to_set().contains(x));
                            let j = choose|j: int| 0 <= j < views(old_seen).len() && views(old_seen)[j] == x;
                            assert(views(seen@)[j] == x);
                        } else {
                            assert(views(seen@)[old_seen.len() as int] == x);
                        }
                    }
                }
                assert(views(seen@).to_set() =~= post.to_set());
            }
        } else {
            proof {
                assert forall|x: Seq<char>| views(seen@).to_set().contains(x) <==> post.to_set().contains(x) by {
                    if post.contains(x) {
                        let t = choose|t: int| 0 <= t < post.len() && post[t] == x;
                        if t < i {
                            assert(pre[t] == x);
                        } else {
                            assert(pre.contains(x));
                        }
                        assert(pre.to_set().contains(x));
                    }
                    if views(seen@).contains(x) {
                        assert(pre.to_set().contains(x));
                        let t = choose|t: int| 0 <= t < pre.len() && pre[t] == x;
                        assert(post[t] == x);
                    }
                }
                assert(views(seen@).to_set() =~= post.to_set());
            }
        }
        i = i + 1;
    }
    assert(views(v@).take(v.len() as int) =~= views(v@));
    proof {
        lemma_distinct_count_is_set_size(views(v@));
    }
    seen.len()
}

/// The key `a|b` that names a link between two records.
pub open spec fn pair_key_spec(a: Seq<char>, b: Seq<char>) -> Seq<char> {
    a + seq!['|'] + b
}

pub fn pair_key(a: &str, b: &str) -> (r: String)
    ensures
        r@ == pair_key_spec(a@, b@),
{
    proof {
        reveal_strlit("|");
    }
    let r = concat3(a, "|", b);
    assert(r@ =~= pair_key_spec(a@, b@));
    r
}

} // verus!
