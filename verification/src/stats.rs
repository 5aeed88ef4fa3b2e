//! Order statistics over integer lists: the median (middle element of the
//! sorted list) and the mode (most frequent element, smallest first on
//! ties).

use vstd::prelude::*;

verus! {

/// Non-decreasing order.
pub open spec fn sorted(s: Seq<i32>) -> bool {
    forall|i: int, j: int| 0 <= i < j < s.len() ==> s[i] <= s[j]
}

/// How many times `x` occurs in `s`.
pub open spec fn count_of(s: Seq<i32>, x: i32) -> nat
    decreases s.len(),
{
    if s.len() == 0 {
        0
    } else {
        count_of(s.drop_last(), x) + (if s.last() == x {
            1nat
        } else {
            0nat
        })
    }
}

/// Two lists hold exactly the same values, with multiplicity.
pub open spec fn permutation(a: Seq<i32>, b: Seq<i32>) -> bool {
    forall|x: i32| count_of(a, x) == count_of(b, x)
}

proof fn lemma_count_update(s: Seq<i32>, i: int, v: i32, x: i32)
    requires
        0 <= i < s.len(),
    ensures
        count_of(s.update(i, v), x) == count_of(s, x) + (if v == x {
            1int
        } else {
            0int
        }) - (if s[i] == x {
            1int
        } else {
            0int
        }),
    decreases s.len(),
{
    let t = s.update(i, v);
    if i == s.len() - 1 {
        assert(t.drop_last() =~= s.drop_last());
        assert(t.last() == v);
    } else {
        assert(t.drop_last() =~= s.drop_last().update(i, v));
        assert(t.last() == s.last());
        lemma_count_update(s.drop_last(), i, v, x);
    }
}

proof fn lemma_count_len(s: Seq<i32>, x: i32)
    ensures
        count_of(s, x) <= s.len(),
        count_of(s, x) > 0 ==> exists|i: int| 0 <= i < s.len() && s[i] == x,
    decreases s.len(),
{
    if s.len() > 0 {
        lemma_count_len(s.drop_last(), x);
        if count_of(s, x) > 0 {
            if s.last() == x {
                assert(s[s.len() - 1] == x);
            } else {
                let i = choose|i: int| 0 <= i < s.drop_last().len() && s.drop_last()[i] == x;
                assert(s[i] == x);
            }
        }
    }
}

proof fn lemma_count_index(s: Seq<i32>, i: int)
    requires
        0 <= i < s.len(),
    ensures
        count_of(s, s[i]) > 0,
    decreases s.len(),
{
    if i == s.len() - 1 {
        assert(s.last() == s[i]);
    } else {
        lemma_count_index(s.drop_last(), i);
        assert(s.drop_last()[i] == s[i]);
    }
}

/// Sort in place by insertion, preserving the multiset of elements.
#[verifier::loop_isolation(false)]
fn sort_i32(v: &mut Vec<i32>)
    ensures
        final(v)@.len() == old(v)@.len(),
        sorted(final(v)@),
        permutation(final(v)@, old(v)@),
{
    let n = v.len();
    let mut i: usize = 1;
    if n == 0 {
        return ;
    }
    while i < n
        invariant
            1 <= i <= n,
            v@.len() == n,
            permutation(v@, old(v)@),
            forall|a: int, b: int| 0 <= a < b < i ==> v@[a] <= v@[b],
        decreases n - i,
    {
        let mut j: usize = i;
        while j > 0 && v[j - 1] > v[j]
            invariant
                0 <= j <= i < n,
                v@.len() == n,
                permutation(v@, old(v)@),
                forall|a: int, b: int| 0 <= a < b <= i && b != j ==> v@[a] <= v@[b],
            decreases j,
        {
            let x = v[j - 1];
            let y = v[j];
            let ghost before = v@;
            v[j - 1] = y;
            v[j] = x;
            proof {
                assert forall|z: i32| count_of(v@, z) == count_of(before, z) by {
                    lemma_count_update(before, j - 1, y, z);
                    lemma_count_update(before.update(j - 1, y), j as int, x, z);
                }
            }
            j = j - 1;
        }
        i = i + 1;
    }
}

/// The median of a list: the element at the middle index once the list is
/// sorted (the upper middle for even lengths).  `None` exactly for an empty
/// list.
pub fn median(input: &[i32]) -> (r: Option<i32>)
    ensures
        (r is None) == (input@.len() == 0),
        r matches Some(m) ==> exists|s: Seq<i32>|
            sorted(s) && #[trigger] permutation(s, input@) && s.len() == input@.len() && m == s[(
            input@.len() / 2) as int],
{
    if input.len() == 0 {
        return None;
    }
    let mut local = clone_ints(input);
    sort_i32(&mut local);
    let mid = local.len() / 2;
    let r = local[mid];
    proof {
        assert(sorted(local@) && permutation(local@, input@) && local@.len() == input@.len() && r
            == local@[(input@.len() / 2) as int]);
    }
    Some(r)
}

/// An element-by-element copy.
fn clone_ints(v: &[i32]) -> (r: Vec<i32>)
    ensures
        r@ == v@,
{
    let mut r: Vec<i32> = Vec::new();
    let mut i: usize = 0;
    while i < v.len()
        invariant
            i <= v@.len(),
            r@ == v@.subrange(0, i as int),
        decreases v@.len() - i,
    {
        r.push(*vstd::slice::slice_index_get(v, i));
        i = i + 1;
        proof {
            assert(r@ =~= v@.subrange(0, i as int));
        }
    }
    proof {
        assert(r@ =~= v@);
    }
    r
}

/// Count how many entries of `v` equal `x`.
#[verifier::loop_isolation(false)]
fn occurrences(v: &[i32], x: i32) -> (r: usize)
    ensures
        r == count_of(v@, x),
{
    let mut r: usize = 0;
    let mut i: usize = 0;
    while i < v.len()
        invariant
            i <= v@.len(),
            r == count_of(v@.subrange(0, i as int), x),
            r <= i,
        decreases v.len() - i,
    {
        let ghost pre = v@.subrange(0, i as int);
        proof {
            assert(v@.subrange(0, i + 1).drop_last() =~= pre);
            assert(v@.subrange(0, i + 1).last() == v@[i as int]);
        }
        if *vstd::slice::slice_index_get(v, i) == x {
            r = r + 1;
        }
        i = i + 1;
    }
    proof {
        assert(v@.subrange(0, v@.len() as int) =~= v@);
    }
    r
}

/// The mode of a list: the value that occurs most often, and the smallest
/// such value when several share the highest count.  `None` exactly for an
/// empty list.
#[verifier::loop_isolation(false)]
pub fn mode(input: &[i32]) -> (r: Option<i32>)
    ensures
        (r is None) == (input@.len() == 0),
        r matches Some(m) ==> {
            &&& count_of(input@, m) > 0
            &&& forall|x: i32| #[trigger] count_of(input@, x) <= count_of(input@, m)
            &&& forall|x: i32| #[trigger] count_of(input@, x) == count_of(input@, m) ==> m <= x
        },
{
    if input.len() == 0 {
        return None;
    }
    let mut best = *vstd::slice::slice_index_get(input, 0);
    let mut best_count = occurrences(input, best);
    proof {
        lemma_count_index(input@, 0);
    }
    let mut i: usize = 1;
    while i < input.len()
        invariant
            1 <= i <= input@.len(),
            best_count == count_of(input@, best),
            best_count > 0,
            forall|j: int| 0 <= j < i ==> count_of(input@, #[trigger] input@[j]) <= best_count,
            forall|j: int|
                0 <= j < i && count_of(input@, #[trigger] input@[j]) == best_count ==> best
                    <= input@[j],
        decreases input@.len() - i,
    {
        let candidate = *vstd::slice::slice_index_get(input, i);
        let c = occurrences(input, candidate);
        proof {
            lemma_count_index(input@, i as int);
        }
        if c > best_count || (c == best_count && candidate < best) {
            best = candidate;
            best_count = c;
        }
        i = i + 1;
    }
    proof {
        assert forall|x: i32| #[trigger] count_of(input@, x) <= count_of(input@, best) by {
            lemma_count_len(input@, x);
            if count_of(input@, x) > 0 {
                let j = choose|j: int| 0 <= j < input@.len() && input@[j] == x;
                assert(count_of(input@, input@[j]) <= best_count);
            }
        }
        assert forall|x: i32|
            #[trigger] count_of(input@, x) == count_of(input@, best) implies best <= x by {
            lemma_count_len(input@, x);
            let j = choose|j: int| 0 <= j < input@.len() && input@[j] == x;
            assert(count_of(input@, input@[j]) == best_count);
        }
    }
    Some(best)
}

} // verus!
