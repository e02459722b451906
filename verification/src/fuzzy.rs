use vstd::prelude::*;
use vstd::relations::sorted_by;

verus! {

/// What skim's fuzzy matcher computes for a choice string and a pattern: a
/// score with the matched character positions, or nothing when the pattern is
/// no fuzzy match. A function of the two strings alone.
pub uninterp spec fn fuzzy_of(choice: Seq<char>, pattern: Seq<char>) -> Option<(int, Seq<int>)>;

/// Relies on fuzzy_matcher's `SkimMatcherV2::fuzzy` under the default
/// options: the result is deterministic in the two string arguments, and an
/// empty pattern matches every choice with score zero and no positions.
#[verifier::external_body]
pub(crate) fn fuzzy_match(choice: &str, pattern: &str) -> (r: Option<(i64, Vec<usize>)>)
    ensures
        (r is Some) == (fuzzy_of(choice@, pattern@) is Some),
        r matches Some(p) ==> fuzzy_of(choice@, pattern@) matches Some(q) && p.0 == q.0
            && p.1@.map_values(|x: usize| x as int) == q.1,
        r is None ==> pattern@.len() != 0,
        r matches Some(p) ==> (pattern@.len() == 0 ==> p.0 == 0 && p.1@.len() == 0),
{
    fuzzy_matcher::skim::SkimMatcherV2::default().fuzzy(choice, pattern, true)
}

/// One row of the fuzzy-filtered dependency view: which dependency it is, its
/// display name, the match score, and the matched character positions for
/// highlighting.
pub struct DependencySelectorItem {
    /// Position of the dependency in its package's list.
    pub dep_index: usize,
    /// The dependency's effective name.
    pub name: String,
    /// The fuzzy match score; higher is better.
    pub score: i64,
    /// Matched character positions within the name.
    pub match_indexes: Vec<usize>,
}

/// View order: higher score first; equal scores keep the original list order.
pub open spec fn item_le(a: DependencySelectorItem, b: DependencySelectorItem) -> bool {
    a.score > b.score || (a.score == b.score && a.dep_index <= b.dep_index)
}

/// The view order as a relation value.
pub open spec fn item_leq() -> spec_fn(DependencySelectorItem, DependencySelectorItem) -> bool {
    |a: DependencySelectorItem, b: DependencySelectorItem| item_le(a, b)
}

fn item_le_exec(a: &DependencySelectorItem, b: &DependencySelectorItem) -> (r: bool)
    ensures
        r == item_le(*a, *b),
{
    a.score > b.score || (a.score == b.score && a.dep_index <= b.dep_index)
}

/// Inserts an item at its ordered position, keeping the vector sorted in the
/// view order.
pub(crate) fn insert_item_sorted(out: &mut Vec<DependencySelectorItem>, it: DependencySelectorItem)
    requires
        sorted_by(old(out)@, item_leq()),
    ensures
        sorted_by(final(out)@, item_leq()),
        exists|p: int| 0 <= p <= old(out)@.len() && final(out)@ == old(out)@.insert(p, it),
{
    let ghost m0 = out@;
    let mut p: usize = 0;
    while p < out.len() && item_le_exec(&out[p], &it)
        invariant
            out@ == m0,
            sorted_by(out@, item_leq()),
            p <= out@.len(),
            forall|k: int| 0 <= k < p ==> item_le(#[trigger] m0[k], it),
        decreases out@.len() - p,
    {
        p = p + 1;
    }
    proof {
        if p < m0.len() {
            assert(!item_le(m0[p as int], it));
            assert(item_le(it, m0[p as int]));
        }
    }
    out.insert(p, it);
    proof {
        assert(out@ =~= m0.insert(p as int, it));
        assert forall|i: int, j: int| 0 <= i < j < out@.len() implies #[trigger] item_leq()(
            out@[i],
            out@[j],
        ) by {
            if i < p && j == p {
                assert(item_le(m0[i], it));
            } else if i == p && j > p {
                assert(item_le(it, m0[p as int]));
                assert(item_leq()(m0[p as int], m0[j - 1]) || p as int == j - 1);
            } else if i < p && j > p {
                assert(item_leq()(m0[i], m0[j - 1]));
            } else if i > p {
                assert(item_leq()(m0[i - 1], m0[j - 1]));
            } else {
                assert(item_leq()(m0[i], m0[j]));
            }
        }
    }
}

} // verus!
