use vstd::prelude::*;
use vstd::relations::sorted_by;
use vstd::string::StrSliceExecFns;
use crate::dep::{Dependency, DependencyOrigin};
use crate::strorder::{lex_leq, lemma_lex_total_ordering, sorted_strings};

verus! {

/// The expanded manifest form of one dependency: an attribute table. A `None`
/// field is left out of the written table entirely.
pub struct DepTable {
    /// `path`, present exactly for a local dependency.
    pub loc_path: Option<String>,
    /// `version`, present exactly when the constraint string is non-empty.
    pub version: Option<String>,
    /// `features`, present exactly when extra features must be listed;
    /// sorted lexicographically.
    pub features: Option<Vec<String>>,
    /// `default-features`, present exactly when the implicit default set is
    /// switched off; then always `false`.
    pub default_features: Option<bool>,
}

/// The manifest encoding chosen for one dependency: a bare version string, or
/// an attribute table.
pub enum DepValue {
    Plain(String),
    Expanded(DepTable),
}

impl Dependency {
    /// The shorthand string form applies exactly to a plain registry
    /// dependency: default features in force and nothing extra to enable.
    pub open spec fn spec_uses_plain_form(self) -> bool {
        &&& self.spec_can_use_default()
        &&& self.spec_features_to_enable().len() == 0
        &&& self.origin is Remote
    }

    /// The additive feature set in the order it is written: ascending
    /// lexicographic order.
    pub open spec fn spec_sorted_features(self) -> Seq<Seq<char>> {
        self.spec_features_to_enable().sort_by(lex_leq())
    }

    /// The `path` entry of the expanded form.
    pub open spec fn spec_path_entry(self) -> Option<Seq<char>> {
        match self.origin {
            DependencyOrigin::Remote => None,
            DependencyOrigin::Local(p) => Some(p@),
        }
    }

    /// The `version` entry of the expanded form.
    pub open spec fn spec_version_entry(self) -> Option<Seq<char>> {
        if self.version@.len() == 0 {
            None
        } else {
            Some(self.version@)
        }
    }

    /// The `features` entry of the expanded form.
    pub open spec fn spec_features_entry(self) -> Option<Seq<Seq<char>>> {
        if self.spec_features_to_enable().len() == 0 {
            None
        } else {
            Some(self.spec_sorted_features())
        }
    }

    /// The `default-features` entry of the expanded form: never written when
    /// `true`, since that is the manifest's implicit default.
    pub open spec fn spec_default_entry(self) -> Option<bool> {
        if self.spec_can_use_default() {
            None
        } else {
            Some(false)
        }
    }
}

/// Chooses the minimal manifest encoding for a dependency: shorthand whenever
/// the state permits, otherwise the expanded table with exactly the owed
/// entries.
pub fn encode_dep(d: &Dependency) -> (r: DepValue)
    ensures
        (r is Plain) <==> d.spec_uses_plain_form(),
        r matches DepValue::Plain(v) ==> v@ == d.version@,
        r matches DepValue::Expanded(t) ==> {
            &&& t.loc_path.deep_view() == d.spec_path_entry()
            &&& t.version.deep_view() == d.spec_version_entry()
            &&& t.features.deep_view() == d.spec_features_entry()
            &&& t.default_features == d.spec_default_entry()
        },
{
    let can_default = d.can_use_default();
    let to_enable = d.get_features_to_enable();
    let remote = d.origin.is_remote();
    proof {
        assert(to_enable@.len() == to_enable@.map_values(|s: String| s@).len());
    }
    if can_default && to_enable.len() == 0 && remote {
        DepValue::Plain(d.get_version())
    } else {
        let loc_path = match &d.origin {
            DependencyOrigin::Remote => None,
            DependencyOrigin::Local(p) => Some(String::from_str(p.as_str())),
        };
        let version = if d.version.as_str().unicode_len() == 0 {
            None
        } else {
            Some(d.get_version())
        };
        let features = if to_enable.len() == 0 {
            None
        } else {
            let sorted = sorted_strings(&to_enable);
            proof {
                assert(sorted.deep_view() =~= sorted@.map_values(|s: String| s@));
            }
            Some(sorted)
        };
        let default_features = if can_default {
            None
        } else {
            Some(false)
        };
        let t = DepTable { loc_path, version, features, default_features };
        proof {
            assert(t.loc_path.deep_view() == d.spec_path_entry());
            assert(t.version.deep_view() == d.spec_version_entry());
            assert(t.features.deep_view() == d.spec_features_entry());
        }
        DepValue::Expanded(t)
    }
}

/// Law: a dependency with default features in force, no extra features, and a
/// registry origin is written in the shorthand string form, never as a table.
pub proof fn lemma_minimal_diff(d: Dependency)
    requires
        d.spec_can_use_default(),
        d.spec_features_to_enable().len() == 0,
        d.origin is Remote,
    ensures
        d.spec_uses_plain_form(),
{
}

/// Law: the written table carries `default-features = false` exactly when the
/// implicit default set is switched off, and no `default-features` entry
/// otherwise.
pub proof fn lemma_expansion_triggers(d: Dependency)
    ensures
        !d.spec_can_use_default() ==> !d.spec_uses_plain_form() && d.spec_default_entry() == Some(
            false,
        ),
        d.spec_can_use_default() ==> d.spec_default_entry() == None::<bool>,
{
}

/// Law: the written features array is sorted and holds exactly the additive
/// feature set.
pub proof fn lemma_features_sorted(d: Dependency)
    ensures
        sorted_by(d.spec_sorted_features(), lex_leq()),
        d.spec_sorted_features().to_multiset() == d.spec_features_to_enable().to_multiset(),
{
    lemma_lex_total_ordering();
    d.spec_features_to_enable().lemma_sort_by_ensures(lex_leq());
}

/// Law: the written features array depends on the enable-set alone — two
/// dependencies whose additive sets hold the same names in any order write
/// the same array.
pub proof fn lemma_feature_order_canonical(a: Dependency, b: Dependency)
    requires
        a.spec_features_to_enable().to_multiset() == b.spec_features_to_enable().to_multiset(),
    ensures
        a.spec_sorted_features() == b.spec_sorted_features(),
{
    lemma_lex_total_ordering();
    a.spec_features_to_enable().lemma_sort_by_ensures(lex_leq());
    b.spec_features_to_enable().lemma_sort_by_ensures(lex_leq());
    vstd::seq_lib::lemma_sorted_unique(
        a.spec_sorted_features(),
        b.spec_sorted_features(),
        lex_leq(),
    );
}

/// Law: a local dependency is always written in expanded form, with a `path`
/// entry equal to its path, whatever its version and feature state.
pub proof fn lemma_local_origin_expanded(d: Dependency, p: String)
    requires
        d.origin == DependencyOrigin::Local(p),
    ensures
        !d.spec_uses_plain_form(),
        d.spec_path_entry() == Some(p@),
{
}

} // verus!
