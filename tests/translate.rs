use ndc_request_v01::aggregates::make_count_aggregate;
use ndc_request_v01::arguments::{
    make_arguments, make_mutation_argument, make_relationship_argument_from_argument,
};
use ndc_request_v01::expression::{make_comparison_target, make_expression};
use ndc_request_v01::order_by::make_order_by_target;
use ndc_request_v01::plan;
use ndc_request_v01::query::{make_field, make_nested_field, make_query};
use ndc_request_v01::request::{make_mutation_request, make_query_request};
use ndc_request_v01::wire;
use ndc_request_v01::NdcV01CompatibilityError;

fn s(text: &str) -> String {
    text.to_string()
}

fn names(items: &[&str]) -> Vec<String> {
    items.iter().map(|n| n.to_string()).collect()
}

fn empty_node() -> plan::QueryNode {
    plan::QueryNode {
        limit: None,
        offset: None,
        order_by: None,
        predicate: None,
        aggregates: None,
        fields: None,
        group_by: None,
    }
}

fn empty_and() -> wire::Expression {
    wire::Expression::And { expressions: vec![] }
}

fn is_null(column: &str) -> plan::ResolvedFilterExpression {
    plan::ResolvedFilterExpression::LocalFieldComparison(
        plan::LocalFieldComparison::UnaryComparison {
            column: plan::ComparisonTarget::Column { name: s(column), field_path: vec![] },
            operator: plan::UnaryComparisonOperator::IsNull,
        },
    )
}

fn wire_is_null(column: &str) -> wire::Expression {
    wire::Expression::UnaryComparisonOperator {
        column: wire::ComparisonTarget::Column { name: s(column), field_path: None, path: vec![] },
        operator: wire::UnaryComparisonOperator::IsNull,
    }
}

fn scalar_array_comparison() -> plan::ResolvedFilterExpression {
    plan::ResolvedFilterExpression::LocalNestedScalarArray {
        column: s("tags"),
        field_path: vec![],
        predicate: Box::new(is_null("tag")),
    }
}

fn column_field(column: &str) -> plan::Field {
    plan::Field::Column { column: s(column), fields: None, arguments: vec![] }
}

fn wire_column_field(column: &str) -> wire::Field {
    wire::Field::Column { column: s(column), fields: None, arguments: vec![] }
}

#[test]
fn group_by_is_refused_before_anything_else() {
    let mut node = empty_node();
    node.predicate = Some(scalar_array_comparison());
    node.group_by = Some(plan::Grouping { dimensions: vec![names(&["author"])], aggregates: vec![] });
    assert_eq!(make_query(node), Err(NdcV01CompatibilityError::GroupByNotSupported));

    let mut node = empty_node();
    node.group_by = Some(plan::Grouping { dimensions: vec![], aggregates: vec![] });
    let plan = plan::QueryExecutionPlan {
        collection: s("articles"),
        query_node: node,
        arguments: vec![],
        collection_relationships: vec![],
        variables: None,
    };
    assert_eq!(make_query_request(plan), Err(NdcV01CompatibilityError::GroupByNotSupported));
}

#[test]
fn remote_comparison_matches_every_row() {
    for id in [0u64, 7, u64::MAX] {
        let e = plan::ResolvedFilterExpression::RemoteRelationshipComparison {
            remote_predicate_id: id,
        };
        assert_eq!(make_expression(e), Ok(empty_and()));
    }
}

#[test]
fn hop_without_filter_gets_always_true_predicate() {
    let target = plan::OrderByTarget::Column {
        name: s("name"),
        field_path: vec![],
        relationship_path: vec![
            plan::RelationshipPathElement {
                field_path: vec![],
                relationship_name: s("articles_author"),
                filter_predicate: None,
            },
            plan::RelationshipPathElement {
                field_path: vec![],
                relationship_name: s("author_address"),
                filter_predicate: Some(is_null("city")),
            },
        ],
    };
    let expected = wire::OrderByTarget::Column {
        name: s("name"),
        field_path: None,
        path: vec![
            wire::PathElement {
                relationship: s("articles_author"),
                arguments: vec![],
                predicate: Some(Box::new(empty_and())),
            },
            wire::PathElement {
                relationship: s("author_address"),
                arguments: vec![],
                predicate: Some(Box::new(wire_is_null("city"))),
            },
        ],
    };
    assert_eq!(make_order_by_target(target), Ok(expected));
}

#[test]
fn hop_through_nested_field_is_refused() {
    let target = plan::OrderByTarget::Column {
        name: s("name"),
        field_path: names(&["first"]),
        relationship_path: vec![plan::RelationshipPathElement {
            field_path: names(&["address"]),
            relationship_name: s("address_country"),
            filter_predicate: None,
        }],
    };
    assert_eq!(
        make_order_by_target(target),
        Err(NdcV01CompatibilityError::NestedRelationshipsInOrderByTargetsNotSupported)
    );
}

#[test]
fn count_aggregate_column_paths() {
    assert_eq!(make_count_aggregate(vec![], false), wire::Aggregate::StarCount);
    assert_eq!(
        make_count_aggregate(names(&["a"]), false),
        wire::Aggregate::ColumnCount { column: s("a"), field_path: None, distinct: false }
    );
    assert_eq!(
        make_count_aggregate(names(&["a", "b", "c"]), true),
        wire::Aggregate::ColumnCount {
            column: s("a"),
            field_path: Some(names(&["b", "c"])),
            distinct: true,
        }
    );
}

#[test]
fn aggregates_keep_selection_order() {
    let mut node = empty_node();
    node.aggregates = Some(vec![
        (s("total"), plan::AggregateFieldSelection::Count { column_path: vec![] }),
        (s("authors"), plan::AggregateFieldSelection::CountDistinct { column_path: names(&["author_id"]) }),
        (
            s("max_rating"),
            plan::AggregateFieldSelection::AggregationFunction {
                function_name: s("max"),
                column_path: plan::ColumnPath { head: s("stats"), tail: names(&["rating"]) },
            },
        ),
        (
            s("min_id"),
            plan::AggregateFieldSelection::AggregationFunction {
                function_name: s("min"),
                column_path: plan::ColumnPath { head: s("id"), tail: vec![] },
            },
        ),
    ]);
    let query = make_query(node).unwrap();
    assert_eq!(
        query.aggregates,
        Some(vec![
            (s("total"), wire::Aggregate::StarCount),
            (
                s("authors"),
                wire::Aggregate::ColumnCount { column: s("author_id"), field_path: None, distinct: true },
            ),
            (
                s("max_rating"),
                wire::Aggregate::SingleColumn {
                    column: s("stats"),
                    field_path: Some(names(&["rating"])),
                    function: s("max"),
                },
            ),
            (
                s("min_id"),
                wire::Aggregate::SingleColumn { column: s("id"), field_path: None, function: s("min") },
            ),
        ])
    );
}

#[test]
fn fields_keep_selection_order_and_arguments_stay_sorted() {
    let mut node = empty_node();
    node.fields = Some(vec![
        (s("zeta"), column_field("z")),
        (s("alpha"), column_field("a")),
        (s("mid"), column_field("m")),
    ]);
    let plan = plan::QueryExecutionPlan {
        collection: s("things"),
        query_node: node,
        arguments: vec![
            (s("a_limit"), plan::Argument::Literal { value: serde_json::Value::from(3) }),
            (s("b_user"), plan::Argument::Variable { name: s("user_id") }),
        ],
        collection_relationships: vec![],
        variables: None,
    };
    let request = make_query_request(plan).unwrap();
    let field_names: Vec<String> =
        request.query.fields.unwrap().into_iter().map(|(n, _)| n).collect();
    assert_eq!(field_names, names(&["zeta", "alpha", "mid"]));
    let argument_names: Vec<String> = request.arguments.iter().map(|(n, _)| n.clone()).collect();
    assert_eq!(argument_names, names(&["a_limit", "b_user"]));
    assert_eq!(
        request.arguments[1].1,
        wire::Argument::Variable { name: s("user_id") }
    );
}

#[test]
fn articles_with_author_ordered_by_author_name() {
    let mut author_node = empty_node();
    author_node.fields = Some(vec![(s("name"), column_field("name"))]);
    let mut node = empty_node();
    node.fields = Some(vec![
        (s("title"), column_field("title")),
        (
            s("author"),
            plan::Field::Relationship {
                query_node: Box::new(author_node),
                relationship: s("articles_author"),
                arguments: vec![],
            },
        ),
    ]);
    node.order_by = Some(vec![plan::OrderByElement {
        order_direction: plan::OrderByDirection::Asc,
        target: plan::OrderByTarget::Column {
            name: s("name"),
            field_path: vec![],
            relationship_path: vec![plan::RelationshipPathElement {
                field_path: vec![],
                relationship_name: s("articles_author"),
                filter_predicate: None,
            }],
        },
    }]);
    let relationship = plan::Relationship {
        column_mapping: vec![(s("author_id"), s("id"))],
        relationship_type: plan::RelationshipType::Object,
        target_collection: s("authors"),
        arguments: vec![],
    };
    let plan = plan::QueryExecutionPlan {
        collection: s("articles"),
        query_node: node,
        arguments: vec![],
        collection_relationships: vec![(s("articles_author"), relationship)],
        variables: None,
    };
    let request = make_query_request(plan).unwrap();
    assert_eq!(request.collection, s("articles"));
    let fields = request.query.fields.unwrap();
    let field_names: Vec<String> = fields.iter().map(|(n, _)| n.clone()).collect();
    assert_eq!(field_names, names(&["title", "author"]));
    let mut expected_author_query = wire::Query {
        aggregates: None,
        fields: Some(vec![(s("name"), wire_column_field("name"))]),
        limit: None,
        offset: None,
        order_by: None,
        predicate: None,
    };
    assert_eq!(
        fields[1].1,
        wire::Field::Relationship {
            query: Box::new(expected_author_query),
            relationship: s("articles_author"),
            arguments: vec![],
        }
    );
    expected_author_query = wire::Query {
        aggregates: None,
        fields: None,
        limit: None,
        offset: None,
        order_by: None,
        predicate: None,
    };
    assert_ne!(fields[1].1, wire::Field::Relationship {
        query: Box::new(expected_author_query),
        relationship: s("articles_author"),
        arguments: vec![],
    });
    let order_by = request.query.order_by.unwrap();
    assert_eq!(order_by.elements[0].order_direction, wire::OrderDirection::Asc);
    assert_eq!(
        order_by.elements[0].target,
        wire::OrderByTarget::Column {
            name: s("name"),
            field_path: None,
            path: vec![wire::PathElement {
                relationship: s("articles_author"),
                arguments: vec![],
                predicate: Some(Box::new(empty_and())),
            }],
        }
    );
    assert_eq!(
        request.collection_relationships,
        vec![(
            s("articles_author"),
            wire::Relationship {
                column_mapping: vec![(s("author_id"), s("id"))],
                relationship_type: wire::RelationshipType::Object,
                target_collection: s("authors"),
                arguments: vec![],
            },
        )]
    );
}

#[test]
fn relationship_comparison_through_nested_field_is_refused() {
    for predicate in [is_null("name"), scalar_array_comparison()] {
        let e = plan::ResolvedFilterExpression::LocalRelationshipComparison {
            field_path: names(&["address"]),
            relationship: s("address_country"),
            predicate: Box::new(predicate),
        };
        assert_eq!(
            make_expression(e),
            Err(NdcV01CompatibilityError::NestedRelationshipsInExpressionsNotSupported)
        );
    }
}

#[test]
fn relationship_comparison_becomes_existence_check() {
    let e = plan::ResolvedFilterExpression::LocalRelationshipComparison {
        field_path: vec![],
        relationship: s("articles_author"),
        predicate: Box::new(is_null("name")),
    };
    assert_eq!(
        make_expression(e),
        Ok(wire::Expression::Exists {
            in_collection: wire::ExistsInCollection::Related {
                relationship: s("articles_author"),
                arguments: vec![],
            },
            predicate: Some(Box::new(wire_is_null("name"))),
        })
    );
}

#[test]
fn scalar_array_comparison_is_refused_inside_conjunction() {
    let e = plan::ResolvedFilterExpression::Or {
        expressions: vec![
            is_null("a"),
            plan::ResolvedFilterExpression::Not { expression: Box::new(scalar_array_comparison()) },
        ],
    };
    assert_eq!(
        make_expression(e),
        Err(NdcV01CompatibilityError::NestedScalarArrayComparisonsNotSupported)
    );
}

#[test]
fn first_error_in_order_wins() {
    let e = plan::ResolvedFilterExpression::And {
        expressions: vec![
            scalar_array_comparison(),
            plan::ResolvedFilterExpression::LocalRelationshipComparison {
                field_path: names(&["x"]),
                relationship: s("r"),
                predicate: Box::new(is_null("y")),
            },
        ],
    };
    assert_eq!(
        make_expression(e),
        Err(NdcV01CompatibilityError::NestedScalarArrayComparisonsNotSupported)
    );
    // The predicate of a query node is looked at before its ordering.
    let mut node = empty_node();
    node.predicate = Some(plan::ResolvedFilterExpression::LocalRelationshipComparison {
        field_path: names(&["x"]),
        relationship: s("r"),
        predicate: Box::new(is_null("y")),
    });
    node.order_by = Some(vec![plan::OrderByElement {
        order_direction: plan::OrderByDirection::Desc,
        target: plan::OrderByTarget::Column {
            name: s("n"),
            field_path: vec![],
            relationship_path: vec![plan::RelationshipPathElement {
                field_path: names(&["f"]),
                relationship_name: s("r"),
                filter_predicate: None,
            }],
        },
    }]);
    assert_eq!(
        make_query(node),
        Err(NdcV01CompatibilityError::NestedRelationshipsInExpressionsNotSupported)
    );
}

#[test]
fn boolean_and_or_not_and_binary_comparisons_translate() {
    let e = plan::ResolvedFilterExpression::And {
        expressions: vec![
            plan::ResolvedFilterExpression::LocalFieldComparison(
                plan::LocalFieldComparison::BinaryComparison {
                    column: plan::ComparisonTarget::Column {
                        name: s("address"),
                        field_path: names(&["city"]),
                    },
                    operator: s("_eq"),
                    value: plan::ComparisonValue::Scalar { value: serde_json::Value::from("Oslo") },
                },
            ),
            plan::ResolvedFilterExpression::Not { expression: Box::new(is_null("id")) },
            plan::ResolvedFilterExpression::Or { expressions: vec![] },
        ],
    };
    let expected = wire::Expression::And {
        expressions: vec![
            wire::Expression::BinaryComparisonOperator {
                column: wire::ComparisonTarget::Column {
                    name: s("address"),
                    field_path: Some(names(&["city"])),
                    path: vec![],
                },
                operator: s("_eq"),
                value: wire::ComparisonValue::Scalar { value: serde_json::Value::from("Oslo") },
            },
            wire::Expression::Not { expression: Box::new(wire_is_null("id")) },
            wire::Expression::Or { expressions: vec![] },
        ],
    };
    assert_eq!(make_expression(e), Ok(expected));
}

#[test]
fn nested_array_comparison_becomes_nested_existence_check() {
    let e = plan::ResolvedFilterExpression::LocalNestedArray {
        column: s("comments"),
        field_path: names(&["items"]),
        predicate: Box::new(plan::ResolvedFilterExpression::LocalFieldComparison(
            plan::LocalFieldComparison::BinaryComparison {
                column: plan::ComparisonTarget::Column { name: s("author"), field_path: vec![] },
                operator: s("_eq"),
                value: plan::ComparisonValue::Variable { name: s("me") },
            },
        )),
    };
    assert_eq!(
        make_expression(e),
        Ok(wire::Expression::Exists {
            in_collection: wire::ExistsInCollection::NestedCollection {
                column_name: s("comments"),
                field_path: names(&["items"]),
                arguments: vec![],
            },
            predicate: Some(Box::new(wire::Expression::BinaryComparisonOperator {
                column: wire::ComparisonTarget::Column {
                    name: s("author"),
                    field_path: None,
                    path: vec![],
                },
                operator: s("_eq"),
                value: wire::ComparisonValue::Variable { name: s("me") },
            })),
        })
    );
}

#[test]
fn comparison_target_path_is_absent_when_empty() {
    assert_eq!(
        make_comparison_target(plan::ComparisonTarget::Column { name: s("a"), field_path: vec![] }),
        wire::ComparisonTarget::Column { name: s("a"), field_path: None, path: vec![] }
    );
    assert_eq!(
        make_comparison_target(plan::ComparisonTarget::Column {
            name: s("a"),
            field_path: names(&["b"]),
        }),
        wire::ComparisonTarget::Column { name: s("a"), field_path: Some(names(&["b"])), path: vec![] }
    );
}

#[test]
fn predicate_arguments_travel_as_literals() {
    let args = vec![
        (s("filter"), plan::Argument::BooleanExpression { predicate: is_null("deleted_at") }),
        (s("limit"), plan::Argument::Literal { value: serde_json::Value::from(10) }),
    ];
    assert_eq!(
        make_arguments(args),
        Ok(vec![
            (
                s("filter"),
                wire::Argument::Literal {
                    value: wire::LiteralValue::EncodedExpression(Box::new(wire_is_null("deleted_at"))),
                },
            ),
            (
                s("limit"),
                wire::Argument::Literal { value: wire::LiteralValue::Json(serde_json::Value::from(10)) },
            ),
        ])
    );
    assert_eq!(
        make_relationship_argument_from_argument(plan::Argument::BooleanExpression {
            predicate: is_null("x"),
        }),
        Ok(wire::RelationshipArgument::Literal {
            value: wire::LiteralValue::EncodedExpression(Box::new(wire_is_null("x"))),
        })
    );
    assert_eq!(
        make_mutation_argument(plan::MutationArgument::BooleanExpression { predicate: is_null("x") }),
        Ok(wire::LiteralValue::EncodedExpression(Box::new(wire_is_null("x"))))
    );
    assert_eq!(
        make_mutation_argument(plan::MutationArgument::BooleanExpression {
            predicate: scalar_array_comparison(),
        }),
        Err(NdcV01CompatibilityError::NestedScalarArrayComparisonsNotSupported)
    );
}

#[test]
fn nested_fields_translate_at_any_depth() {
    let nested = plan::NestedField::Array(plan::NestedArray {
        fields: Box::new(plan::NestedField::Object(plan::NestedObject {
            fields: vec![(s("street"), column_field("street")), (s("city"), column_field("city"))],
        })),
    });
    let field = plan::Field::Column {
        column: s("addresses"),
        fields: Some(nested),
        arguments: vec![(s("limit"), plan::Argument::Variable { name: s("n") })],
    };
    assert_eq!(
        make_field(field),
        Ok(wire::Field::Column {
            column: s("addresses"),
            fields: Some(wire::NestedField::Array(wire::NestedArray {
                fields: Box::new(wire::NestedField::Object(wire::NestedObject {
                    fields: vec![
                        (s("street"), wire_column_field("street")),
                        (s("city"), wire_column_field("city")),
                    ],
                })),
            })),
            arguments: vec![(s("limit"), wire::Argument::Variable { name: s("n") })],
        })
    );
    let refused = plan::NestedField::Object(plan::NestedObject {
        fields: vec![(
            s("inner"),
            plan::Field::Column {
                column: s("inner"),
                fields: None,
                arguments: vec![(
                    s("where"),
                    plan::Argument::BooleanExpression { predicate: scalar_array_comparison() },
                )],
            },
        )],
    });
    assert_eq!(
        make_nested_field(refused),
        Err(NdcV01CompatibilityError::NestedScalarArrayComparisonsNotSupported)
    );
}

#[test]
fn query_request_carries_limits_and_variables() {
    let mut node = empty_node();
    node.limit = Some(5);
    node.offset = Some(10);
    let variables = vec![vec![(s("id"), serde_json::Value::from(1))], vec![]];
    let plan = plan::QueryExecutionPlan {
        collection: s("articles"),
        query_node: node,
        arguments: vec![],
        collection_relationships: vec![],
        variables: Some(variables.clone()),
    };
    let request = make_query_request(plan).unwrap();
    assert_eq!(request.query.limit, Some(5));
    assert_eq!(request.query.offset, Some(10));
    assert_eq!(request.query.fields, None);
    assert_eq!(request.query.predicate, None);
    assert_eq!(request.variables, Some(variables));
}

#[test]
fn mutation_request_holds_one_procedure() {
    let plan = plan::MutationExecutionPlan {
        procedure_name: s("delete_articles"),
        procedure_arguments: vec![
            (s("dry_run"), plan::MutationArgument::Literal { value: serde_json::Value::from(true) }),
            (s("where"), plan::MutationArgument::BooleanExpression { predicate: is_null("author") }),
        ],
        procedure_fields: Some(plan::NestedField::Object(plan::NestedObject {
            fields: vec![(s("affected_rows"), column_field("affected_rows"))],
        })),
        collection_relationships: vec![(
            s("articles_tags"),
            plan::Relationship {
                column_mapping: vec![(s("id"), s("article_id"))],
                relationship_type: plan::RelationshipType::Array,
                target_collection: s("tags"),
                arguments: vec![(s("owner"), plan::RelationshipArgument::Column { name: s("owner_id") })],
            },
        )],
    };
    let request = make_mutation_request(plan).unwrap();
    assert_eq!(
        request.operations,
        vec![wire::MutationOperation::Procedure {
            name: s("delete_articles"),
            arguments: vec![
                (s("dry_run"), wire::LiteralValue::Json(serde_json::Value::from(true))),
                (s("where"), wire::LiteralValue::EncodedExpression(Box::new(wire_is_null("author")))),
            ],
            fields: Some(wire::NestedField::Object(wire::NestedObject {
                fields: vec![(s("affected_rows"), wire_column_field("affected_rows"))],
            })),
        }]
    );
    assert_eq!(
        request.collection_relationships,
        vec![(
            s("articles_tags"),
            wire::Relationship {
                column_mapping: vec![(s("id"), s("article_id"))],
                relationship_type: wire::RelationshipType::Array,
                target_collection: s("tags"),
                arguments: vec![(s("owner"), wire::RelationshipArgument::Column { name: s("owner_id") })],
            },
        )]
    );
}

#[test]
fn mutation_request_refuses_unsupported_selection() {
    let plan = plan::MutationExecutionPlan {
        procedure_name: s("p"),
        procedure_arguments: vec![],
        procedure_fields: Some(plan::NestedField::Object(plan::NestedObject {
            fields: vec![(
                s("r"),
                plan::Field::Relationship {
                    query_node: Box::new(plan::QueryNode {
                        group_by: Some(plan::Grouping { dimensions: vec![], aggregates: vec![] }),
                        ..empty_node()
                    }),
                    relationship: s("rel"),
                    arguments: vec![],
                },
            )],
        })),
        collection_relationships: vec![],
    };
    assert_eq!(make_mutation_request(plan), Err(NdcV01CompatibilityError::GroupByNotSupported));
}

fn rich_plan() -> plan::QueryExecutionPlan {
    let mut node = empty_node();
    node.limit = Some(20);
    node.predicate = Some(plan::ResolvedFilterExpression::And {
        expressions: vec![
            is_null("deleted_at"),
            plan::ResolvedFilterExpression::RemoteRelationshipComparison { remote_predicate_id: 9 },
            plan::ResolvedFilterExpression::LocalRelationshipComparison {
                field_path: vec![],
                relationship: s("articles_author"),
                predicate: Box::new(is_null("banned_at")),
            },
        ],
    });
    node.fields = Some(vec![
        (s("title"), column_field("title")),
        (
            s("meta"),
            plan::Field::Column {
                column: s("meta"),
                fields: Some(plan::NestedField::Object(plan::NestedObject {
                    fields: vec![(s("words"), column_field("words"))],
                })),
                arguments: vec![],
            },
        ),
    ]);
    node.aggregates = Some(vec![(s("n"), plan::AggregateFieldSelection::Count { column_path: vec![] })]);
    plan::QueryExecutionPlan {
        collection: s("articles"),
        query_node: node,
        arguments: vec![(s("since"), plan::Argument::Variable { name: s("since") })],
        collection_relationships: vec![(
            s("articles_author"),
            plan::Relationship {
                column_mapping: vec![(s("author_id"), s("id"))],
                relationship_type: plan::RelationshipType::Object,
                target_collection: s("authors"),
                arguments: vec![],
            },
        )],
        variables: Some(vec![vec![(s("since"), serde_json::Value::from("2024-01-01"))]]),
    }
}

#[test]
fn supported_plan_translates_and_the_same_plan_gives_the_same_request() {
    let first = make_query_request(rich_plan());
    assert!(first.is_ok());
    assert_eq!(first, make_query_request(rich_plan()));
    let request = first.unwrap();
    assert_eq!(
        request.query.predicate,
        Some(wire::Expression::And {
            expressions: vec![
                wire_is_null("deleted_at"),
                empty_and(),
                wire::Expression::Exists {
                    in_collection: wire::ExistsInCollection::Related {
                        relationship: s("articles_author"),
                        arguments: vec![],
                    },
                    predicate: Some(Box::new(wire_is_null("banned_at"))),
                },
            ],
        })
    );
    assert_eq!(request.query.aggregates, Some(vec![(s("n"), wire::Aggregate::StarCount)]));
}

#[test]
fn query_request_refuses_unsupported_argument() {
    let mut plan = rich_plan();
    plan.arguments = vec![(
        s("where"),
        plan::Argument::BooleanExpression { predicate: scalar_array_comparison() },
    )];
    assert_eq!(
        make_query_request(plan),
        Err(NdcV01CompatibilityError::NestedScalarArrayComparisonsNotSupported)
    );
}

#[test]
fn errors_explain_themselves() {
    assert_eq!(
        NdcV01CompatibilityError::GroupByNotSupported.message(),
        "Groupings are not supported in NDC v0.1.x"
    );
    assert_eq!(
        NdcV01CompatibilityError::NestedRelationshipsInOrderByTargetsNotSupported.message(),
        "Nested relationships in order by targets are not supported in NDC v0.1.x"
    );
}

#[test]
fn remote_ids_inside_trees_do_not_change_the_result() {
    let tree = |id: u64| plan::ResolvedFilterExpression::Or {
        expressions: vec![
            plan::ResolvedFilterExpression::Not {
                expression: Box::new(plan::ResolvedFilterExpression::RemoteRelationshipComparison {
                    remote_predicate_id: id,
                }),
            },
            is_null("a"),
        ],
    };
    let first = make_expression(tree(1));
    assert_eq!(first, make_expression(tree(42)));
    assert_eq!(
        first,
        Ok(wire::Expression::Or {
            expressions: vec![
                wire::Expression::Not { expression: Box::new(empty_and()) },
                wire_is_null("a"),
            ],
        })
    );
}
