//! Translation of the engine's request plans into requests of the v0.1
//! data-connector protocol, refusing what that revision cannot express.
use vstd::prelude::*;

pub mod plan;
pub mod wire;
pub mod expression;
pub mod arguments;
pub mod order_by;
pub mod aggregates;
pub mod query;
pub mod request;
pub mod laws;
pub mod v01;

verus! {

/// Constructs of a request plan that the v0.1 protocol cannot express.
#[derive(Debug, Clone, Copy, PartialEq, Eq, Structural)]
pub enum NdcV01CompatibilityError {
    NestedRelationshipsInExpressionsNotSupported,
    NestedRelationshipsInOrderByTargetsNotSupported,
    NestedScalarArrayComparisonsNotSupported,
    GroupByNotSupported,
}

impl NdcV01CompatibilityError {
    pub open spec fn spec_message(self) -> Seq<char> {
        match self {
            NdcV01CompatibilityError::NestedRelationshipsInExpressionsNotSupported =>
                "Nested relationships in expressions are not supported in NDC v0.1.x"@,
            NdcV01CompatibilityError::NestedRelationshipsInOrderByTargetsNotSupported =>
                "Nested relationships in order by targets are not supported in NDC v0.1.x"@,
            NdcV01CompatibilityError::NestedScalarArrayComparisonsNotSupported =>
                "Comparisons against elements in scalar arrays are not supported in NDC v0.1.x"@,
            NdcV01CompatibilityError::GroupByNotSupported =>
                "Groupings are not supported in NDC v0.1.x"@,
        }
    }

    /// What went wrong, in words.
    pub fn message(&self) -> (r: &'static str)
        ensures
            r@ == self.spec_message(),
    {
        match self {
            NdcV01CompatibilityError::NestedRelationshipsInExpressionsNotSupported =>
                "Nested relationships in expressions are not supported in NDC v0.1.x",
            NdcV01CompatibilityError::NestedRelationshipsInOrderByTargetsNotSupported =>
                "Nested relationships in order by targets are not supported in NDC v0.1.x",
            NdcV01CompatibilityError::NestedScalarArrayComparisonsNotSupported =>
                "Comparisons against elements in scalar arrays are not supported in NDC v0.1.x",
            NdcV01CompatibilityError::GroupByNotSupported =>
                "Groupings are not supported in NDC v0.1.x",
        }
    }
}

/// The names of the entries of a map, in order.
pub open spec fn entry_names<T>(entries: Seq<(String, T)>) -> Seq<Seq<char>> {
    entries.map_values(|e: (String, T)| e.0@)
}

/// `a` comes strictly before `b` in the order of their characters.
pub open spec fn name_less(a: Seq<char>, b: Seq<char>) -> bool
    decreases a.len(),
{
    if a.len() == 0 {
        b.len() > 0
    } else if b.len() == 0 {
        false
    } else if a[0] == b[0] {
        name_less(a.drop_first(), b.drop_first())
    } else {
        (a[0] as u32) < (b[0] as u32)
    }
}

/// The entries are sorted by name, with no name twice.
pub open spec fn names_sorted(names: Seq<Seq<char>>) -> bool {
    forall|i: int, j: int| 0 <= i < j < names.len() ==> name_less(names[i], names[j])
}

/// No name occurs twice.
pub open spec fn names_unique(names: Seq<Seq<char>>) -> bool {
    forall|i: int, j: int| 0 <= i < j < names.len() ==> names[i] != names[j]
}

/// The first error among `errors[i..]`, or `None` where there is none.
pub open spec fn first_error<E>(errors: Seq<Option<E>>, i: int) -> Option<E>
    decreases errors.len() - i,
{
    if 0 <= i < errors.len() {
        if errors[i] is Some {
            errors[i]
        } else {
            first_error(errors, i + 1)
        }
    } else {
        None
    }
}

pub proof fn lemma_first_error_none<E>(errors: Seq<Option<E>>, i: int)
    requires
        0 <= i <= errors.len(),
        forall|j: int| i <= j < errors.len() ==> #[trigger] errors[j] is None,
    ensures
        first_error(errors, i) is None,
    decreases errors.len() - i,
{
    if i < errors.len() {
        lemma_first_error_none(errors, i + 1);
    }
}

pub proof fn lemma_first_error_at<E>(errors: Seq<Option<E>>, i: int, k: int)
    requires
        0 <= i <= k < errors.len(),
        forall|j: int| i <= j < k ==> #[trigger] errors[j] is None,
        errors[k] is Some,
    ensures
        first_error(errors, i) == errors[k],
    decreases k - i,
{
    if i < k {
        lemma_first_error_at(errors, i + 1, k);
    }
}

pub proof fn lemma_first_error_some<E>(errors: Seq<Option<E>>, i: int, k: int)
    requires
        0 <= i <= k < errors.len(),
        errors[k] is Some,
    ensures
        first_error(errors, i) is Some,
    decreases k - i,
{
    if i < k && errors[i] is None {
        lemma_first_error_some(errors, i + 1, k);
    }
}

} // verus!
