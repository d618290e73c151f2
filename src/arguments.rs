//! The four ways in which arguments are carried into a v0.1 request.
//!
//! Argument maps are sorted by name; every translation here keeps each name
//! and its place, so the result is sorted whenever its input is.
use vstd::prelude::*;

use crate::expression::{expression_error, expression_matches, make_expression};
use crate::plan;
use crate::wire;
use crate::{
    entry_names, first_error, lemma_first_error_at, lemma_first_error_none, names_sorted,
    NdcV01CompatibilityError,
};

verus! {

pub open spec fn argument_error(a: plan::Argument) -> Option<NdcV01CompatibilityError> {
    match a {
        plan::Argument::BooleanExpression { predicate } => expression_error(predicate),
        _ => None,
    }
}

/// The first error among the arguments of `args`, in order.
pub open spec fn arguments_error(args: Seq<(String, plan::Argument)>) -> Option<
    NdcV01CompatibilityError,
> {
    first_error(args.map_values(|p: (String, plan::Argument)| argument_error(p.1)), 0)
}

/// `w` is the plain v0.1 form of `a`: a predicate travels as a literal that
/// holds its translation.
pub open spec fn argument_matches(a: plan::Argument, w: wire::Argument) -> bool {
    match a {
        plan::Argument::Literal { value } => w == wire::Argument::Literal {
            value: wire::LiteralValue::Json(value),
        },
        plan::Argument::Variable { name } => w == wire::Argument::Variable { name },
        plan::Argument::BooleanExpression { predicate } => match w {
            wire::Argument::Literal { value: wire::LiteralValue::EncodedExpression(e) } => {
                expression_matches(predicate, *e)
            },
            _ => false,
        },
    }
}

pub open spec fn arguments_match(args: Seq<(String, plan::Argument)>, ws: Seq<(String, wire::Argument)>) -> bool {
    ws.len() == args.len() && forall|i: int|
        0 <= i < args.len() ==> (#[trigger] ws[i]).0 == args[i].0 && argument_matches(
            args[i].1,
            ws[i].1,
        )
}

/// `w` is the relationship-argument form of `a`, as used for the arguments of
/// a field that crosses a relationship.
pub open spec fn relationship_argument_from_argument_matches(
    a: plan::Argument,
    w: wire::RelationshipArgument,
) -> bool {
    match a {
        plan::Argument::Literal { value } => w == wire::RelationshipArgument::Literal {
            value: wire::LiteralValue::Json(value),
        },
        plan::Argument::Variable { name } => w == wire::RelationshipArgument::Variable { name },
        plan::Argument::BooleanExpression { predicate } => match w {
            wire::RelationshipArgument::Literal {
                value: wire::LiteralValue::EncodedExpression(e),
            } => expression_matches(predicate, *e),
            _ => false,
        },
    }
}

pub open spec fn relationship_arguments_from_arguments_match(
    args: Seq<(String, plan::Argument)>,
    ws: Seq<(String, wire::RelationshipArgument)>,
) -> bool {
    ws.len() == args.len() && forall|i: int|
        0 <= i < args.len() ==> (#[trigger] ws[i]).0 == args[i].0
            && relationship_argument_from_argument_matches(args[i].1, ws[i].1)
}

pub open spec fn relationship_argument_matches(
    a: plan::RelationshipArgument,
    w: wire::RelationshipArgument,
) -> bool {
    match a {
        plan::RelationshipArgument::Column { name } => w == wire::RelationshipArgument::Column {
            name,
        },
    }
}

pub open spec fn relationship_arguments_match(
    args: Seq<(String, plan::RelationshipArgument)>,
    ws: Seq<(String, wire::RelationshipArgument)>,
) -> bool {
    ws.len() == args.len() && forall|i: int|
        0 <= i < args.len() ==> (#[trigger] ws[i]).0 == args[i].0
            && relationship_argument_matches(args[i].1, ws[i].1)
}

pub open spec fn mutation_argument_error(a: plan::MutationArgument) -> Option<
    NdcV01CompatibilityError,
> {
    match a {
        plan::MutationArgument::BooleanExpression { predicate } => expression_error(predicate),
        _ => None,
    }
}

pub open spec fn mutation_arguments_error(args: Seq<(String, plan::MutationArgument)>) -> Option<
    NdcV01CompatibilityError,
> {
    first_error(
        args.map_values(|p: (String, plan::MutationArgument)| mutation_argument_error(p.1)),
        0,
    )
}

/// `w` is the raw JSON form of `a`: a procedure's arguments carry no kind tag.
pub open spec fn mutation_argument_matches(a: plan::MutationArgument, w: wire::LiteralValue) -> bool {
    match a {
        plan::MutationArgument::Literal { value } => w == wire::LiteralValue::Json(value),
        plan::MutationArgument::BooleanExpression { predicate } => match w {
            wire::LiteralValue::EncodedExpression(e) => expression_matches(predicate, *e),
            _ => false,
        },
    }
}

pub open spec fn mutation_arguments_match(
    args: Seq<(String, plan::MutationArgument)>,
    ws: Seq<(String, wire::LiteralValue)>,
) -> bool {
    ws.len() == args.len() && forall|i: int|
        0 <= i < args.len() ==> (#[trigger] ws[i]).0 == args[i].0 && mutation_argument_matches(
            args[i].1,
            ws[i].1,
        )
}

pub fn make_argument(argument: plan::Argument) -> (r: Result<wire::Argument, NdcV01CompatibilityError>)
    ensures
        match r {
            Ok(w) => argument_error(argument) is None && argument_matches(argument, w),
            Err(x) => argument_error(argument) == Some(x),
        },
{
    match argument {
        plan::Argument::Literal { value } => Ok(
            wire::Argument::Literal { value: wire::LiteralValue::Json(value) },
        ),
        plan::Argument::Variable { name } => Ok(wire::Argument::Variable { name }),
        plan::Argument::BooleanExpression { predicate } => {
            let e = make_expression(predicate)?;
            Ok(wire::Argument::Literal { value: wire::LiteralValue::EncodedExpression(Box::new(e)) })
        },
    }
}

/// Translates the arguments of a field or of the whole query, in order,
/// stopping at the first error.
pub fn make_arguments(arguments: Vec<(String, plan::Argument)>) -> (r: Result<
    Vec<(String, wire::Argument)>,
    NdcV01CompatibilityError,
>)
    requires
        names_sorted(entry_names(arguments@)),
    ensures
        match r {
            Ok(ws) => names_sorted(entry_names(ws@)) && arguments_error(arguments@) is None && arguments_match(arguments@, ws@),
            Err(x) => arguments_error(arguments@) == Some(x),
        },
{
    let ghost args = arguments@;
    let ghost errors = args.map_values(|p: (String, plan::Argument)| argument_error(p.1));
    let mut out: Vec<(String, wire::Argument)> = Vec::new();
    for entry in it: arguments.into_iter()
        invariant
            it.seq() == args,
            names_sorted(entry_names(args)),
            errors == args.map_values(|p: (String, plan::Argument)| argument_error(p.1)),
            out@.len() == it.index(),
            forall|j: int|
                0 <= j < it.index() ==> #[trigger] errors[j] is None,
            forall|j: int|
                0 <= j < it.index() ==> (#[trigger] out@[j]).0 == args[j].0
                    && argument_matches(args[j].1, out@[j].1),
    {
        let (name, argument) = entry;
        match make_argument(argument) {
            Ok(w) => out.push((name, w)),
            Err(x) => {
                proof {
                    lemma_first_error_at(errors, 0, it.index() as int);
                }
                return Err(x);
            },
        }
    }
    proof {
        lemma_first_error_none(errors, 0);
    }
    assert(entry_names(out@) =~= entry_names(args));
    Ok(out)
}

pub fn make_relationship_argument_from_argument(argument: plan::Argument) -> (r: Result<
    wire::RelationshipArgument,
    NdcV01CompatibilityError,
>)
    ensures
        match r {
            Ok(w) => argument_error(argument) is None
                && relationship_argument_from_argument_matches(argument, w),
            Err(x) => argument_error(argument) == Some(x),
        },
{
    match argument {
        plan::Argument::Literal { value } => Ok(
            wire::RelationshipArgument::Literal { value: wire::LiteralValue::Json(value) },
        ),
        plan::Argument::Variable { name } => Ok(wire::RelationshipArgument::Variable { name }),
        plan::Argument::BooleanExpression { predicate } => {
            let e = make_expression(predicate)?;
            Ok(
                wire::RelationshipArgument::Literal {
                    value: wire::LiteralValue::EncodedExpression(Box::new(e)),
                },
            )
        },
    }
}

/// Translates the arguments of a field that crosses a relationship, in
/// order, stopping at the first error.
pub fn make_relationship_arguments_from_arguments(arguments: Vec<(String, plan::Argument)>) -> (r:
    Result<Vec<(String, wire::RelationshipArgument)>, NdcV01CompatibilityError>)
    requires
        names_sorted(entry_names(arguments@)),
    ensures
        match r {
            Ok(ws) => names_sorted(entry_names(ws@)) && arguments_error(arguments@) is None
                && relationship_arguments_from_arguments_match(arguments@, ws@),
            Err(x) => arguments_error(arguments@) == Some(x),
        },
{
    let ghost args = arguments@;
    let ghost errors = args.map_values(|p: (String, plan::Argument)| argument_error(p.1));
    let mut out: Vec<(String, wire::RelationshipArgument)> = Vec::new();
    for entry in it: arguments.into_iter()
        invariant
            it.seq() == args,
            names_sorted(entry_names(args)),
            errors == args.map_values(|p: (String, plan::Argument)| argument_error(p.1)),
            out@.len() == it.index(),
            forall|j: int|
                0 <= j < it.index() ==> #[trigger] errors[j] is None,
            forall|j: int|
                0 <= j < it.index() ==> (#[trigger] out@[j]).0 == args[j].0
                    && relationship_argument_from_argument_matches(args[j].1, out@[j].1),
    {
        let (name, argument) = entry;
        match make_relationship_argument_from_argument(argument) {
            Ok(w) => out.push((name, w)),
            Err(x) => {
                proof {
                    lemma_first_error_at(errors, 0, it.index() as int);
                }
                return Err(x);
            },
        }
    }
    proof {
        lemma_first_error_none(errors, 0);
    }
    assert(entry_names(out@) =~= entry_names(args));
    Ok(out)
}

pub fn make_relationship_argument(argument: plan::RelationshipArgument) -> (r:
    wire::RelationshipArgument)
    ensures
        relationship_argument_matches(argument, r),
{
    match argument {
        plan::RelationshipArgument::Column { name } => wire::RelationshipArgument::Column { name },
    }
}

/// Translates a relationship's declared argument template.
pub fn make_relationship_arguments(arguments: Vec<(String, plan::RelationshipArgument)>) -> (r: Vec<
    (String, wire::RelationshipArgument),
>)
    requires
        names_sorted(entry_names(arguments@)),
    ensures
        relationship_arguments_match(arguments@, r@),
        names_sorted(entry_names(r@)),
{
    let ghost args = arguments@;
    let mut out: Vec<(String, wire::RelationshipArgument)> = Vec::new();
    for entry in it: arguments.into_iter()
        invariant
            it.seq() == args,
            names_sorted(entry_names(args)),
            out@.len() == it.index(),
            forall|j: int|
                0 <= j < it.index() ==> (#[trigger] out@[j]).0 == args[j].0
                    && relationship_argument_matches(args[j].1, out@[j].1),
    {
        let (name, argument) = entry;
        out.push((name, make_relationship_argument(argument)));
    }
    assert(entry_names(out@) =~= entry_names(args));
    out
}

pub fn make_mutation_argument(argument: plan::MutationArgument) -> (r: Result<
    wire::LiteralValue,
    NdcV01CompatibilityError,
>)
    ensures
        match r {
            Ok(w) => mutation_argument_error(argument) is None && mutation_argument_matches(
                argument,
                w,
            ),
            Err(x) => mutation_argument_error(argument) == Some(x),
        },
{
    match argument {
        plan::MutationArgument::Literal { value } => Ok(wire::LiteralValue::Json(value)),
        plan::MutationArgument::BooleanExpression { predicate } => {
            let e = make_expression(predicate)?;
            Ok(wire::LiteralValue::EncodedExpression(Box::new(e)))
        },
    }
}

/// Translates the arguments of a procedure, in order, stopping at the first
/// error.
pub fn make_mutation_arguments(arguments: Vec<(String, plan::MutationArgument)>) -> (r: Result<
    Vec<(String, wire::LiteralValue)>,
    NdcV01CompatibilityError,
>)
    requires
        names_sorted(entry_names(arguments@)),
    ensures
        match r {
            Ok(ws) => names_sorted(entry_names(ws@)) && mutation_arguments_error(arguments@) is None && mutation_arguments_match(
                arguments@,
                ws@,
            ),
            Err(x) => mutation_arguments_error(arguments@) == Some(x),
        },
{
    let ghost args = arguments@;
    let ghost errors = args.map_values(
        |p: (String, plan::MutationArgument)| mutation_argument_error(p.1),
    );
    let mut out: Vec<(String, wire::LiteralValue)> = Vec::new();
    for entry in it: arguments.into_iter()
        invariant
            it.seq() == args,
            names_sorted(entry_names(args)),
            errors == args.map_values(
                |p: (String, plan::MutationArgument)| mutation_argument_error(p.1),
            ),
            out@.len() == it.index(),
            forall|j: int|
                0 <= j < it.index() ==> #[trigger] errors[j] is None,
            forall|j: int|
                0 <= j < it.index() ==> (#[trigger] out@[j]).0 == args[j].0
                    && mutation_argument_matches(args[j].1, out@[j].1),
    {
        let (name, argument) = entry;
        match make_mutation_argument(argument) {
            Ok(w) => out.push((name, w)),
            Err(x) => {
                proof {
                    lemma_first_error_at(errors, 0, it.index() as int);
                }
                return Err(x);
            },
        }
    }
    proof {
        lemma_first_error_none(errors, 0);
    }
    assert(entry_names(out@) =~= entry_names(args));
    Ok(out)
}

} // verus!
