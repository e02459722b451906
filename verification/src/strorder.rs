use vstd::prelude::*;
use vstd::relations::{sorted_by, total_ordering};
use vstd::string::StrSliceExecFns;

verus! {

/// Lexicographic order on character sequences, comparing Unicode scalar
/// values position by position; a prefix comes before every extension.
pub open spec fn lex_le(a: Seq<char>, b: Seq<char>) -> bool
    decreases a.len(),
{
    if a.len() == 0 {
        true
    } else if b.len() == 0 {
        false
    } else if a[0] != b[0] {
        (a[0] as u32) < (b[0] as u32)
    } else {
        lex_le(a.drop_first(), b.drop_first())
    }
}

/// The lexicographic order as a relation value, for vstd's sorting lemmas.
pub open spec fn lex_leq() -> spec_fn(Seq<char>, Seq<char>) -> bool {
    |a: Seq<char>, b: Seq<char>| lex_le(a, b)
}

pub proof fn lemma_lex_le_refl(a: Seq<char>)
    ensures
        lex_le(a, a),
    decreases a.len(),
{
    if a.len() != 0 {
        lemma_lex_le_refl(a.drop_first());
    }
}

pub proof fn lemma_lex_le_total(a: Seq<char>, b: Seq<char>)
    ensures
        lex_le(a, b) || lex_le(b, a),
    decreases a.len(),
{
    if a.len() == 0 {
        assert(lex_le(a, b));
    } else if b.len() == 0 {
        assert(lex_le(b, a));
    } else if a[0] == b[0] {
        lemma_lex_le_total(a.drop_first(), b.drop_first());
    } else {
        vstd::utf8::char_u32_cast(a[0], a[0] as u32);
        vstd::utf8::char_u32_cast(b[0], b[0] as u32);
        assert((a[0] as u32) != (b[0] as u32));
        if (a[0] as u32) < (b[0] as u32) {
            assert(lex_le(a, b));
        } else {
            assert(lex_le(b, a));
        }
    }
}

pub proof fn lemma_lex_le_antisym(a: Seq<char>, b: Seq<char>)
    requires
        lex_le(a, b),
        lex_le(b, a),
    ensures
        a == b,
    decreases a.len(),
{
    if a.len() == 0 {
        assert(b.len() == 0);
        assert(a =~= b);
    } else {
        assert(b.len() != 0);
        assert(a[0] == b[0]);
        lemma_lex_le_antisym(a.drop_first(), b.drop_first());
        assert(a.len() == b.len());
        assert forall|i: int| 0 <= i < a.len() implies a[i] == b[i] by {
            if i > 0 {
                assert(a.drop_first()[i - 1] == b.drop_first()[i - 1]);
            }
        }
        assert(a =~= b);
    }
}

pub proof fn lemma_lex_le_trans(a: Seq<char>, b: Seq<char>, c: Seq<char>)
    requires
        lex_le(a, b),
        lex_le(b, c),
    ensures
        lex_le(a, c),
    decreases a.len(),
{
    if a.len() != 0 {
        assert(b.len() != 0);
        assert(c.len() != 0);
        if a[0] == b[0] && b[0] == c[0] {
            lemma_lex_le_trans(a.drop_first(), b.drop_first(), c.drop_first());
        }
    }
}

pub proof fn lemma_lex_total_ordering()
    ensures
        total_ordering(lex_leq()),
{
    let r = lex_leq();
    assert forall|x: Seq<char>| #[trigger] r(x, x) by {
        lemma_lex_le_refl(x);
    }
    assert forall|x: Seq<char>, y: Seq<char>| #[trigger] r(x, y) && #[trigger] r(y, x) implies x
        == y by {
        lemma_lex_le_antisym(x, y);
    }
    assert forall|x: Seq<char>, y: Seq<char>, z: Seq<char>|
        #[trigger] r(x, y) && #[trigger] r(y, z) implies r(x, z) by {
        lemma_lex_le_trans(x, y, z);
    }
    assert forall|x: Seq<char>, y: Seq<char>| #[trigger] r(x, y) || #[trigger] r(y, x) by {
        lemma_lex_le_total(x, y);
    }
}

/// With the first `i` characters pairwise equal, the order is decided by the
/// remainders alone.
proof fn lemma_lex_le_skip(a: Seq<char>, b: Seq<char>, i: int)
    requires
        0 <= i <= a.len(),
        i <= b.len(),
        forall|j: int| 0 <= j < i ==> a[j] == b[j],
    ensures
        lex_le(a, b) == lex_le(a.skip(i), b.skip(i)),
    decreases i,
{
    if i > 0 {
        assert(a[0] == b[0]);
        lemma_lex_le_skip(a.drop_first(), b.drop_first(), i - 1);
        assert(a.drop_first().skip(i - 1) =~= a.skip(i));
        assert(b.drop_first().skip(i - 1) =~= b.skip(i));
        assert(a.skip(0) =~= a);
        assert(b.skip(0) =~= b);
    } else {
        assert(a.skip(0) =~= a);
        assert(b.skip(0) =~= b);
    }
}

/// Whether `a` comes no later than `b` in lexicographic order.
pub fn str_le(a: &str, b: &str) -> (r: bool)
    ensures
        r == lex_le(a@, b@),
{
    let la = a.unicode_len();
    let lb = b.unicode_len();
    let mut i: usize = 0;
    loop
        invariant
            la == a@.len(),
            lb == b@.len(),
            i <= la,
            i <= lb,
            forall|j: int| 0 <= j < i ==> a@[j] == b@[j],
        decreases la - i,
    {
        if i >= la {
            proof {
                lemma_lex_le_skip(a@, b@, i as int);
            }
            return true;
        }
        if i >= lb {
            proof {
                lemma_lex_le_skip(a@, b@, i as int);
                assert(a@.skip(i as int).len() > 0);
            }
            return false;
        }
        let ca = a.get_char(i);
        let cb = b.get_char(i);
        if ca as u32 != cb as u32 {
            proof {
                lemma_lex_le_skip(a@, b@, i as int);
                assert(a@.skip(i as int)[0] == a@[i as int]);
                assert(b@.skip(i as int)[0] == b@[i as int]);
            }
            return (ca as u32) < (cb as u32);
        }
        proof {
            vstd::utf8::char_u32_cast(ca, ca as u32);
            vstd::utf8::char_u32_cast(cb, cb as u32);
            assert(a@[i as int] == b@[i as int]);
        }
        i = i + 1;
    }
}

/// Whether two strings hold the same characters.
pub fn str_eq(a: &str, b: &str) -> (r: bool)
    ensures
        r == (a@ == b@),
{
    let le1 = str_le(a, b);
    let le2 = str_le(b, a);
    proof {
        if le1 && le2 {
            lemma_lex_le_antisym(a@, b@);
        }
        lemma_lex_le_refl(a@);
    }
    le1 && le2
}

/// Inserts `s` into a lexicographically sorted vector, keeping it sorted and
/// adding exactly `s` to its contents.
fn insert_sorted(out: &mut Vec<String>, s: String)
    requires
        sorted_by(old(out)@.map_values(|t: String| t@), lex_leq()),
    ensures
        sorted_by(final(out)@.map_values(|t: String| t@), lex_leq()),
        final(out)@.map_values(|t: String| t@).to_multiset() == old(out)@.map_values(
            |t: String| t@,
        ).to_multiset().insert(s@),
{
    let ghost m0 = out@.map_values(|t: String| t@);
    let mut p: usize = 0;
    while p < out.len() && str_le(out[p].as_str(), s.as_str())
        invariant
            sorted_by(out@.map_values(|t: String| t@), lex_leq()),
            out@.map_values(|t: String| t@) == m0,
            p <= out@.len(),
            forall|k: int| 0 <= k < p ==> lex_le(m0[k], s@),
        decreases out@.len() - p,
    {
        p = p + 1;
    }
    proof {
        if p < m0.len() {
            assert(!lex_le(m0[p as int], s@));
            lemma_lex_le_total(m0[p as int], s@);
        }
    }
    out.insert(p, s);
    proof {
        let m1 = out@.map_values(|t: String| t@);
        assert(m1 =~= m0.insert(p as int, s@));
        vstd::seq_lib::to_multiset_insert(m0, p as int, s@);
        assert forall|i: int, j: int| 0 <= i < j < m1.len() implies #[trigger] lex_leq()(
            m1[i],
            m1[j],
        ) by {
            if i < p && j == p {
                assert(lex_le(m0[i], s@));
            } else if i == p && j > p {
                assert(lex_le(s@, m0[p as int]));
                if j - 1 > p {
                    assert(lex_leq()(m0[p as int], m0[j - 1]));
                    lemma_lex_le_trans(s@, m0[p as int], m0[j - 1]);
                }
            } else if i < p && j > p {
                assert(lex_leq()(m0[i], m0[j - 1]));
            } else if i > p && j > p {
                assert(lex_leq()(m0[i - 1], m0[j - 1]));
            } else if i < p && j < p {
                assert(lex_leq()(m0[i], m0[j]));
            }
        }
    }
}

/// A copy of the given names in ascending lexicographic order: exactly
/// vstd's `sort_by` of the input under `lex_leq`.
pub fn sorted_strings(v: &Vec<String>) -> (r: Vec<String>)
    ensures
        r@.map_values(|t: String| t@) == v@.map_values(|t: String| t@).sort_by(lex_leq()),
        r@.len() == v@.len(),
{
    let ghost vm = v@.map_values(|t: String| t@);
    let mut out: Vec<String> = Vec::new();
    let n = v.len();
    proof {
        assert(out@.map_values(|t: String| t@).to_multiset() =~= vm.take(0).to_multiset()) by {
            assert(out@.map_values(|t: String| t@) =~= Seq::<Seq<char>>::empty());
            assert(vm.take(0) =~= Seq::<Seq<char>>::empty());
        }
    }
    for idx in 0..n
        invariant
            n == v@.len(),
            vm == v@.map_values(|t: String| t@),
            sorted_by(out@.map_values(|t: String| t@), lex_leq()),
            out@.map_values(|t: String| t@).to_multiset() == vm.take(idx as int).to_multiset(),
    {
        let ghost pre = out@.map_values(|t: String| t@);
        insert_sorted(&mut out, String::from_str(v[idx].as_str()));
        proof {
            assert(vm.take(idx + 1) =~= vm.take(idx as int).push(vm[idx as int]));
            vstd::seq_lib::to_multiset_build(vm.take(idx as int), vm[idx as int]);
        }
    }
    proof {
        assert(vm.take(n as int) =~= vm);
        lemma_lex_total_ordering();
        vm.lemma_sort_by_ensures(lex_leq());
        let om = out@.map_values(|t: String| t@);
        vstd::seq_lib::lemma_sorted_unique(om, vm.sort_by(lex_leq()), lex_leq());
        assert(om =~= vm.sort_by(lex_leq()));
        assert(om.len() == om.to_multiset().len()) by {
            om.to_multiset_ensures();
        }
        assert(vm.len() == vm.to_multiset().len()) by {
            vm.to_multiset_ensures();
        }
    }
    out
}

} // verus!
