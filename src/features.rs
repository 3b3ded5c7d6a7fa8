//! Experimental feature toggles and their built-in defaults.
use crate::text::chars_of;
use vstd::prelude::*;

verus! {

/// One experimental feature toggle.
pub struct Feature {
    pub key: &'static str,
    pub name: &'static str,
    pub description: &'static str,
    pub default_on: bool,
}

/// The registry of experimental features, as `(key, default)` pairs.
pub open spec fn feature_defaults() -> Seq<(Seq<char>, bool)> {
    seq![("comment"@, false)]
}

/// Every experimental feature.
pub fn all_features() -> (r: Vec<Feature>)
    ensures
        r@.len() == feature_defaults().len(),
        forall|i: int|
            0 <= i < r@.len() ==> (#[trigger] r@[i]).key@ == feature_defaults()[i].0
                && r@[i].default_on == feature_defaults()[i].1,
{
    vec![
        Feature {
            key: "comment",
            name: "/comment command",
            description: "Enable a /comment command that opens a browser",
            default_on: false,
        },
    ]
}

fn same_text(a: &str, b: &str) -> (r: bool)
    ensures
        r == (a@ == b@),
{
    let x = chars_of(a);
    let y = chars_of(b);
    if x.len() != y.len() {
        return false;
    }
    let mut i: usize = 0;
    while i < x.len()
        invariant
            x@.len() == y@.len(),
            x@ == a@,
            y@ == b@,
            i <= x@.len(),
            forall|j: int| 0 <= j < i ==> x@[j] == y@[j],
        decreases x@.len() - i,
    {
        if x[i] != y[i] {
            assert(x@[i as int] != y@[i as int]);
            return false;
        }
        i = i + 1;
    }
    assert(x@ =~= y@);
    true
}

/// The built-in default of the feature with key `key`: that of the first
/// registered feature with that key, `false` for an unknown key.
pub open spec fn default_of(key: Seq<char>) -> bool {
    if exists|i: int| 0 <= i < feature_defaults().len() && feature_defaults()[i].0 == key {
        feature_defaults()[choose|i: int|
            0 <= i < feature_defaults().len() && feature_defaults()[i].0 == key && forall|j: int|
                0 <= j < i ==> feature_defaults()[j].0 != key].1
    } else {
        false
    }
}

/// The built-in default of a feature.
pub fn default_for(key: &str) -> (r: bool)
    ensures
        r == default_of(key@),
{
    let features = all_features();
    let mut i: usize = 0;
    while i < features.len()
        invariant
            i <= features@.len(),
            features@.len() == feature_defaults().len(),
            forall|j: int|
                0 <= j < features@.len() ==> (#[trigger] features@[j]).key@ == feature_defaults()[j].0
                    && features@[j].default_on == feature_defaults()[j].1,
            forall|j: int| 0 <= j < i ==> feature_defaults()[j].0 != key@,
        decreases features@.len() - i,
    {
        if same_text(features[i].key, key) {
            let ghost k = choose|k: int|
                0 <= k < feature_defaults().len() && feature_defaults()[k].0 == key@ && forall|j: int|
                    0 <= j < k ==> feature_defaults()[j].0 != key@;
            assert(k == i) by {
                assert(features@[i as int].key@ == key@);
                if k < i {
                    assert(feature_defaults()[k].0 != key@);
                }
                if k > i {
                    assert(feature_defaults()[i as int].0 == key@);
                }
            }
            return features[i].default_on;
        }
        i = i + 1;
    }
    false
}

/// Whether a feature is on: the configured value when there is one, else
/// the built-in default.
pub fn is_enabled(configured: Option<bool>, key: &str) -> (r: bool)
    ensures
        r == match configured {
            Some(v) => v,
            None => default_of(key@),
        },
{
    match configured {
        Some(v) => v,
        None => default_for(key),
    }
}

} // verus!
