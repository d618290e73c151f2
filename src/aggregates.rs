//! Translation of aggregate selections.
use vstd::prelude::*;

use crate::expression::optional_path_matches;
use crate::plan;
use crate::wire;
use crate::{entry_names, names_unique};

verus! {

/// A count over `path`: of rows where it is empty, else of the values of its
/// first column, reached through the rest of it.
pub open spec fn count_matches(path: Seq<String>, distinct: bool, w: wire::Aggregate) -> bool {
    if path.len() == 0 {
        w == wire::Aggregate::StarCount
    } else {
        match w {
            wire::Aggregate::ColumnCount { column, field_path, distinct: w_distinct } => {
                &&& column == path[0]
                &&& optional_path_matches(path.drop_first(), field_path)
                &&& w_distinct == distinct
            },
            _ => false,
        }
    }
}

pub open spec fn aggregate_matches(a: plan::AggregateFieldSelection, w: wire::Aggregate) -> bool {
    match a {
        plan::AggregateFieldSelection::Count { column_path } => count_matches(
            column_path@,
            false,
            w,
        ),
        plan::AggregateFieldSelection::CountDistinct { column_path } => count_matches(
            column_path@,
            true,
            w,
        ),
        plan::AggregateFieldSelection::AggregationFunction { function_name, column_path } => {
            match w {
                wire::Aggregate::SingleColumn { column, field_path, function } => {
                    &&& column == column_path.head
                    &&& optional_path_matches(column_path.tail@, field_path)
                    &&& function == function_name
                },
                _ => false,
            }
        },
    }
}

/// Entry by entry, in selection order.
pub open spec fn aggregates_match(
    aggregates: Seq<(String, plan::AggregateFieldSelection)>,
    ws: Seq<(String, wire::Aggregate)>,
) -> bool {
    ws.len() == aggregates.len() && forall|i: int|
        0 <= i < aggregates.len() ==> (#[trigger] ws[i]).0 == aggregates[i].0 && aggregate_matches(
            aggregates[i].1,
            ws[i].1,
        )
}

/// A row count where `column_path` is empty, else a count of the values of
/// its first column, reached through the rest of it.
pub fn make_count_aggregate(column_path: Vec<String>, distinct: bool) -> (r: wire::Aggregate)
    ensures
        count_matches(column_path@, distinct, r),
{
    if column_path.len() == 0 {
        wire::Aggregate::StarCount
    } else {
        let mut remaining_path = column_path;
        let column = remaining_path.remove(0);
        assert(remaining_path@ =~= column_path@.drop_first());
        wire::Aggregate::ColumnCount {
            column,
            field_path: if remaining_path.len() == 0 {
                None
            } else {
                Some(remaining_path)
            },
            distinct,
        }
    }
}

pub fn make_aggregate(aggregate: plan::AggregateFieldSelection) -> (r: wire::Aggregate)
    ensures
        aggregate_matches(aggregate, r),
{
    match aggregate {
        plan::AggregateFieldSelection::Count { column_path } => make_count_aggregate(
            column_path,
            false,
        ),
        plan::AggregateFieldSelection::CountDistinct { column_path } => make_count_aggregate(
            column_path,
            true,
        ),
        plan::AggregateFieldSelection::AggregationFunction { function_name, column_path } => {
            let plan::ColumnPath { head, tail } = column_path;
            wire::Aggregate::SingleColumn {
                column: head,
                field_path: if tail.len() == 0 {
                    None
                } else {
                    Some(tail)
                },
                function: function_name,
            }
        },
    }
}

/// Translates an aggregate selection, keeping its order.
pub fn make_aggregates(aggregates: Vec<(String, plan::AggregateFieldSelection)>) -> (r: Vec<
    (String, wire::Aggregate),
>)
    requires
        names_unique(entry_names(aggregates@)),
    ensures
        aggregates_match(aggregates@, r@),
        names_unique(entry_names(r@)),
{
    let ghost selections = aggregates@;
    let mut out: Vec<(String, wire::Aggregate)> = Vec::new();
    for entry in it: aggregates.into_iter()
        invariant
            it.seq() == selections,
            names_unique(entry_names(selections)),
            out@.len() == it.index(),
            forall|j: int|
                0 <= j < it.index() ==> (#[trigger] out@[j]).0 == selections[j].0
                    && aggregate_matches(selections[j].1, out@[j].1),
    {
        let (name, aggregate) = entry;
        out.push((name, make_aggregate(aggregate)));
    }
    assert(entry_names(out@) =~= entry_names(selections));
    out
}

} // verus!
