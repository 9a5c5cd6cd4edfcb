//! Subtraction of one path's component prefix from another path.

use vstd::prelude::*;

use crate::path::Component;
use crate::path::ComponentModel;
use crate::path::Path;
use crate::path::PathModel;

verus! {

/// The lock-step walk finds no mismatch: at every position that both
/// sequences share, the two components are equal.
pub open spec fn lockstep_matches(p: Seq<ComponentModel>, q: Seq<ComponentModel>) -> bool {
    forall|i: int| 0 <= i < p.len() && i < q.len() ==> p[i] == q[i]
}

/// The components of `p` that remain once the first `q.len()` of them
/// are removed; empty when `q` is at least as long as `p`.
pub open spec fn remainder(p: Seq<ComponentModel>, q: Seq<ComponentModel>) -> Seq<ComponentModel> {
    if q.len() >= p.len() {
        Seq::empty()
    } else {
        p.skip(q.len() as int)
    }
}

/// What subtracting `other` from `path` yields: no result when the
/// absoluteness flags differ or the lock-step walk finds a mismatch,
/// and otherwise the trailing components of `path` left after removing
/// the shared leading run.
pub open spec fn spec_sub_paths(path: PathModel, other: PathModel) -> Option<Seq<ComponentModel>> {
    if path.absolute != other.absolute {
        None
    } else if lockstep_matches(path.components, other.components) {
        Some(remainder(path.components, other.components))
    } else {
        None
    }
}

/// Subtract `other` from `path` (in this order).
///
/// The result is absent exactly when the two paths' absoluteness
/// differs or some shared position holds two different components;
/// otherwise it is the freshly built sequence of `path`'s components
/// that follow `other`'s full component sequence (empty when `other`
/// is at least as long as `path`).
pub fn sub_paths(path: &Path, other: &Path) -> (result: Option<Vec<Component>>)
    ensures
        match result {
            Some(rest) => spec_sub_paths(path@, other@) == Some(rest.deep_view()),
            None => spec_sub_paths(path@, other@) is None,
        },
{
    if path.absolute != other.absolute {
        return None;
    }
    let n: usize = path.components.len();
    let m: usize = other.components.len();
    let mut i: usize = 0;
    while i < n && i < m
        invariant
            i <= n,
            i <= m,
            n == path@.components.len(),
            m == other@.components.len(),
            forall|j: int| 0 <= j < i ==> path@.components[j] == other@.components[j],
        decreases n - i,
    {
        if !(path.components[i] == other.components[i]) {
            assert(path@.components[i as int] != other@.components[i as int]);
            return None;
        }
        i = i + 1;
    }
    assert(lockstep_matches(path@.components, other@.components));
    if i >= n {
        // `path` is exhausted, so nothing remains, however much of
        // `other` was never visited.
        let rest: Vec<Component> = Vec::new();
        assert(rest.deep_view() =~= remainder(path@.components, other@.components));
        return Some(rest);
    }
    // `other` is exhausted and components of `path` remain: accumulate
    // them in order.
    let mut rest: Vec<Component> = Vec::new();
    while i < n
        invariant
            m <= i <= n,
            m < n,
            n == path@.components.len(),
            m == other@.components.len(),
            rest.deep_view() =~= path@.components.subrange(m as int, i as int),
        decreases n - i,
    {
        let ghost before = rest@;
        let ghost before_models = rest.deep_view();
        rest.push(path.components[i].clone());
        proof {
            assert(before_models.len() == i - m);
            assert forall|j: int| 0 <= j < rest@.len() implies (#[trigger] rest@[j]).deep_view()
                == path@.components.subrange(m as int, i as int + 1)[j] by {
                if j < before.len() {
                    assert(rest@[j] == before[j]);
                    assert(before[j].deep_view() == before_models[j]);
                    assert(before_models[j] == path@.components.subrange(m as int, i as int)[j]);
                } else {
                    assert(rest@[j]@ == path@.components[i as int]);
                }
            }
            assert(rest.deep_view() =~= path@.components.subrange(m as int, i as int + 1));
        }
        i = i + 1;
    }
    assert(rest.deep_view() =~= remainder(path@.components, other@.components));
    Some(rest)
}

/// Paths whose absoluteness flags differ never yield a subtraction.
pub proof fn lemma_absoluteness_mismatch(path: PathModel, other: PathModel)
    requires
        path.absolute != other.absolute,
    ensures
        spec_sub_paths(path, other) is None,
{
}

/// Subtracting a path from itself always succeeds, with an empty
/// remainder.
pub proof fn lemma_sub_self(path: PathModel)
    ensures
        spec_sub_paths(path, path) == Some(Seq::<ComponentModel>::empty()),
{
}

/// Reconstruction law: when a subtraction succeeds and `other` did not
/// overrun `path` during the walk, joining `other`'s components with
/// the result rebuilds exactly `path`'s component sequence.
pub proof fn lemma_reconstruction(path: PathModel, other: PathModel, rest: Seq<ComponentModel>)
    requires
        spec_sub_paths(path, other) == Some(rest),
        other.components.len() <= path.components.len(),
    ensures
        other.components + rest == path.components,
{
    assert(other.components + rest =~= path.components);
}

/// Reflexive-prefix law: a successful subtraction with an empty result
/// means `path`'s components are a prefix of `other`'s components (not
/// necessarily equal to them).
pub proof fn lemma_empty_rest_prefix(path: PathModel, other: PathModel)
    requires
        spec_sub_paths(path, other) == Some(Seq::<ComponentModel>::empty()),
    ensures
        path.components.is_prefix_of(other.components),
{
    if other.components.len() < path.components.len() {
        assert(remainder(path.components, other.components).len() > 0);
    }
    assert(path.components =~= other.components.subrange(0, path.components.len() as int));
}

} // verus!
