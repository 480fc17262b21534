//! Lexicographic order of strings and sorting.
use vstd::prelude::*;

use crate::cmd::strs_view;
use crate::text::chars_of;

verus! {

/// `a` comes before `b` in the lexicographic order of their characters (the order
/// of `String`'s `<`): at the first difference the smaller character wins, and a
/// proper prefix comes first.
pub open spec fn seq_lt(a: Seq<char>, b: Seq<char>) -> bool
    decreases a.len(),
{
    if a.len() == 0 {
        b.len() > 0
    } else if b.len() == 0 {
        false
    } else if a[0] != b[0] {
        a[0] < b[0]
    } else {
        seq_lt(a.drop_first(), b.drop_first())
    }
}

/// `a` comes before `b` or equals it.
pub open spec fn seq_le(a: Seq<char>, b: Seq<char>) -> bool {
    a == b || seq_lt(a, b)
}

/// The strings are in lexicographic order.
pub open spec fn sorted(s: Seq<Seq<char>>) -> bool {
    forall|i: int, j: int| 0 <= i < j < s.len() ==> seq_le(s[i], s[j])
}

/// No string comes before itself.
pub proof fn lemma_lt_irreflexive(a: Seq<char>)
    ensures
        !seq_lt(a, a),
    decreases a.len(),
{
    if a.len() > 0 {
        lemma_lt_irreflexive(a.drop_first());
    }
}

/// Of two different strings one comes first.
pub proof fn lemma_lt_total(a: Seq<char>, b: Seq<char>)
    ensures
        a == b || seq_lt(a, b) || seq_lt(b, a),
    decreases a.len(),
{
    if a.len() > 0 && b.len() > 0 {
        if a[0] == b[0] {
            lemma_lt_total(a.drop_first(), b.drop_first());
            if a.drop_first() == b.drop_first() {
                assert(a =~= seq![a[0]] + a.drop_first());
                assert(b =~= seq![b[0]] + b.drop_first());
            }
        }
    } else if a.len() == 0 && b.len() == 0 {
        assert(a =~= b);
    }
}

/// The order is transitive.
pub proof fn lemma_lt_transitive(a: Seq<char>, b: Seq<char>, c: Seq<char>)
    requires
        seq_lt(a, b),
        seq_lt(b, c),
    ensures
        seq_lt(a, c),
    decreases a.len(),
{
    if a.len() > 0 && b.len() > 0 && c.len() > 0 {
        if a[0] == b[0] && b[0] == c[0] {
            lemma_lt_transitive(a.drop_first(), b.drop_first(), c.drop_first());
        }
    }
}

/// Does `a` come before `b`?
pub fn chars_lt(a: &Vec<char>, b: &Vec<char>) -> (r: bool)
    ensures
        r == seq_lt(a@, b@),
{
    let mut i: usize = 0;
    assert(a@.skip(0) =~= a@);
    assert(b@.skip(0) =~= b@);
    while i < a.len() && i < b.len()
        invariant
            i <= a@.len(),
            i <= b@.len(),
            seq_lt(a@, b@) == seq_lt(a@.skip(i as int), b@.skip(i as int)),
        decreases a@.len() - i,
    {
        if a[i] != b[i] {
            proof {
                assert(a@.skip(i as int)[0] == a@[i as int]);
                assert(b@.skip(i as int)[0] == b@[i as int]);
            }
            return a[i] < b[i];
        }
        proof {
            assert(a@.skip(i as int).drop_first() =~= a@.skip(i + 1));
            assert(b@.skip(i as int).drop_first() =~= b@.skip(i + 1));
        }
        i = i + 1;
    }
    proof {
        assert(a@.skip(i as int).len() == a@.len() - i);
        assert(b@.skip(i as int).len() == b@.len() - i);
    }
    i < b.len()
}

/// Sort strings in lexicographic order (`slice::sort` on strings): the result is
/// sorted and holds the same strings, each as often.
pub fn sort_strings(v: Vec<String>) -> (r: Vec<String>)
    ensures
        sorted(strs_view(r@)),
        strs_view(r@).to_multiset() == strs_view(v@).to_multiset(),
{
    broadcast use vstd::seq_lib::group_to_multiset_ensures;

    let mut result: Vec<String> = Vec::new();
    let mut keys: Vec<Vec<char>> = Vec::new();
    let mut i: usize = 0;
    assert(strs_view(v@).take(0) =~= Seq::<Seq<char>>::empty());
    assert(strs_view(result@) =~= Seq::<Seq<char>>::empty());
    while i < v.len()
        invariant
            i <= v@.len(),
            keys@.len() == result@.len(),
            forall|k: int| 0 <= k < keys@.len() ==> #[trigger] keys@[k]@ == result@[k]@,
            sorted(strs_view(result@)),
            strs_view(result@).to_multiset() == strs_view(v@).take(i as int).to_multiset(),
        decreases v@.len() - i,
    {
        let x = chars_of(v[i].as_str());
        let ghost rs = strs_view(result@);
        let mut pos: usize = 0;
        while pos < keys.len() && !chars_lt(&x, &keys[pos])
            invariant
                pos <= keys@.len(),
                keys@.len() == result@.len(),
                rs == strs_view(result@),
                forall|k: int| 0 <= k < keys@.len() ==> #[trigger] keys@[k]@ == result@[k]@,
                forall|k: int| 0 <= k < pos ==> seq_le(#[trigger] rs[k], x@),
            decreases keys@.len() - pos,
        {
            proof {
                lemma_lt_total(x@, rs[pos as int]);
            }
            pos = pos + 1;
        }
        proof {
            assert forall|k: int| pos <= k < rs.len() implies seq_lt(x@, #[trigger] rs[k]) by {
                assert(seq_lt(x@, rs[pos as int]));
                if k > pos as int {
                    assert(seq_le(rs[pos as int], rs[k]));
                    if rs[pos as int] != rs[k] {
                        lemma_lt_transitive(x@, rs[pos as int], rs[k]);
                    }
                }
            }
        }
        let ghost before = result@;
        result.insert(pos, v[i].clone());
        keys.insert(pos, x);
        proof {
            let t = strs_view(result@);
            assert(t =~= rs.insert(pos as int, v@[i as int]@));
            assert(v@[i as int]@ == x@);
            assert forall|a: int, b: int| 0 <= a < b < t.len() implies seq_le(t[a], t[b]) by {
                if b < pos {
                } else if a < pos && b == pos {
                } else if a < pos && b > pos {
                    assert(t[b] == rs[b - 1]);
                    assert(seq_le(rs[a], x@));
                    assert(seq_lt(x@, rs[b - 1]));
                    if rs[a] != x@ {
                        lemma_lt_transitive(rs[a], x@, rs[b - 1]);
                    }
                } else if a == pos {
                    assert(t[b] == rs[b - 1]);
                } else {
                    assert(t[a] == rs[a - 1]);
                    assert(t[b] == rs[b - 1]);
                }
            }
            vstd::seq_lib::to_multiset_insert(rs, pos as int, x@);
            assert(t.to_multiset() == rs.to_multiset().insert(x@));
            assert(strs_view(v@).take(i + 1) =~= strs_view(v@).take(i as int).push(v@[i as int]@));
            vstd::seq_lib::to_multiset_build(strs_view(v@).take(i as int), x@);
            assert(strs_view(v@).take(i as int).push(x@).to_multiset() == strs_view(v@).take(
                i as int,
            ).to_multiset().insert(x@));
            assert(t.to_multiset() == strs_view(v@).take(i + 1).to_multiset());
            assert forall|k: int| 0 <= k < keys@.len() implies #[trigger] keys@[k]@ == result@[k]@ by {
                if k < pos {
                } else if k == pos {
                } else {
                }
            }
        }
        i = i + 1;
    }
    assert(strs_view(v@).take(v@.len() as int) =~= strs_view(v@));
    result
}

} // verus!
