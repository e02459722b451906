use vstd::prelude::*;

verus! {

/// Where a declared dependency comes from: the registry, or a local path.
#[derive(Clone, Debug, PartialEq, Eq)]
pub enum DependencyOrigin {
    Remote,
    Local(String),
}

impl DependencyOrigin {
    pub fn is_remote(&self) -> (r: bool)
        ensures
            r == (*self matches DependencyOrigin::Remote),
    {
        match self {
            DependencyOrigin::Remote => true,
            DependencyOrigin::Local(_) => false,
        }
    }
}

/// One feature a dependency offers: its name, whether the crate enables it by
/// default, and whether it is currently switched on.
#[derive(Clone, Debug)]
pub struct Feature {
    pub name: String,
    pub is_default: bool,
    pub is_enabled: bool,
}

/// One declared dependency's logical state: the key it is declared under, the
/// effective crate name, a version constraint (empty when absent), its origin,
/// and the state of every feature it offers.
#[derive(Clone, Debug)]
pub struct Dependency {
    /// The key under which the dependency is declared in its section.
    pub dep_name: String,
    /// The effective crate name; differs from `dep_name` when aliased.
    pub name: String,
    /// Version constraint string; empty means no constraint is recorded.
    pub version: String,
    pub origin: DependencyOrigin,
    /// Every feature the dependency offers, with its current state.
    pub features: Vec<Feature>,
}

impl Dependency {
    /// The implicit default-feature set can stay in force exactly when no
    /// default feature has been switched off.
    pub open spec fn spec_can_use_default(self) -> bool {
        forall|i: int|
            0 <= i < self.features@.len() && (#[trigger] self.features@[i]).is_default
                ==> self.features@[i].is_enabled
    }

    /// A feature must be listed explicitly when it is enabled and the implicit
    /// default set does not already provide it.
    pub open spec fn spec_feature_needed(self, f: Feature) -> bool {
        f.is_enabled && !(f.is_default && self.spec_can_use_default())
    }

    /// The additive feature set: names of exactly those features that have to
    /// be written out, in declaration order.
    pub open spec fn spec_features_to_enable(self) -> Seq<Seq<char>> {
        self.features@.filter(|f: Feature| self.spec_feature_needed(f)).map_values(
            |f: Feature| f.name@,
        )
    }

    pub fn get_name(&self) -> (r: String)
        ensures
            r@ == self.name@,
    {
        String::from_str(self.name.as_str())
    }

    pub fn get_version(&self) -> (r: String)
        ensures
            r@ == self.version@,
    {
        String::from_str(self.version.as_str())
    }

    pub fn can_use_default(&self) -> (r: bool)
        ensures
            r == self.spec_can_use_default(),
    {
        let n = self.features.len();
        for i in 0..n
            invariant
                n == self.features@.len(),
                forall|j: int|
                    0 <= j < i && (#[trigger] self.features@[j]).is_default
                        ==> self.features@[j].is_enabled,
        {
            let f = &self.features[i];
            if f.is_default && !f.is_enabled {
                return false;
            }
        }
        true
    }

    pub fn get_features_to_enable(&self) -> (r: Vec<String>)
        ensures
            r@.map_values(|s: String| s@) == self.spec_features_to_enable(),
    {
        let can_default = self.can_use_default();
        let mut out: Vec<String> = Vec::new();
        let n = self.features.len();
        let ghost pred = |f: Feature| self.spec_feature_needed(f);
        for i in 0..n
            invariant
                n == self.features@.len(),
                can_default == self.spec_can_use_default(),
                pred == (|f: Feature| self.spec_feature_needed(f)),
                out@.map_values(|s: String| s@) == self.features@.take(i as int).filter(
                    pred,
                ).map_values(|f: Feature| f.name@),
        {
            let f = &self.features[i];
            proof {
                lemma_filter_push(self.features@.take(i as int), pred, self.features@[i as int]);
                assert(self.features@.take(i as int).push(self.features@[i as int])
                    =~= self.features@.take(i + 1));
            }
            if f.is_enabled && !(f.is_default && can_default) {
                proof {
                    assert(pred(self.features@[i as int]));
                }
                let ghost out_pre = out@;
                out.push(String::from_str(f.name.as_str()));
                proof {
                    let x = self.features@[i as int];
                    assert(out@ == out_pre.push(out@.last()));
                    assert(out@.last()@ == x.name@);
                    assert(self.features@.take(i + 1).filter(pred) == self.features@.take(
                        i as int,
                    ).filter(pred).push(x));
                    assert(out@.map_values(|s: String| s@) =~= out_pre.map_values(
                        |s: String| s@,
                    ).push(x.name@));
                    assert(self.features@.take(i + 1).filter(pred).map_values(|f: Feature| f.name@)
                        =~= self.features@.take(i as int).filter(pred).map_values(
                        |f: Feature| f.name@,
                    ).push(x.name@));
                }
            } else {
                proof {
                    assert(!pred(self.features@[i as int]));
                    assert(out@.map_values(|s: String| s@) =~= self.features@.take(i + 1).filter(
                        pred,
                    ).map_values(|f: Feature| f.name@));
                }
            }
        }
        proof {
            assert(self.features@.take(n as int) =~= self.features@);
        }
        out
    }
}

/// Filtering a sequence extended by one element keeps the old filtered prefix
/// and appends the element exactly when it satisfies the predicate.
proof fn lemma_filter_push<A>(s: Seq<A>, pred: spec_fn(A) -> bool, x: A)
    ensures
        s.push(x).filter(pred) == if pred(x) {
            s.filter(pred).push(x)
        } else {
            s.filter(pred)
        },
{
    reveal(Seq::filter);
    assert(s.push(x).drop_last() =~= s);
    assert(s.push(x).last() == x);
}

} // verus!
