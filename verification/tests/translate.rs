use breakwater::expr::{binary, col, lit_bool, lit_i64, lit_str};
use breakwater::residual::{Clause, EntityName, PatternElem, ResidualExpr, ResidualOp};
use breakwater::{CedarResidualTranslator, ConstraintTranslator, Expr, Operator, ResidualError};
use cedar_policy::Policy;

/// Parse a policy and translate its condition; residuals are ordinary policies.
fn predicate(src: &str) -> Result<Option<Expr>, ResidualError> {
    let policy = Policy::parse(None, src).expect("valid policy");
    CedarResidualTranslator::new().to_predicate(&policy)
}

fn eq(left: Expr, right: Expr) -> Expr {
    binary(left, Operator::Eq, right)
}

#[test]
fn resource_eq_literal_becomes_col_eq() {
    let expr =
        predicate(r#"permit(principal, action, resource) when { resource.region == "eu" };"#)
            .unwrap()
            .unwrap();
    assert_eq!(expr, eq(col("region"), lit_str("eu")));
}

#[test]
fn conjunction_of_resource_comparisons() {
    let expr = predicate(
        r#"permit(principal, action, resource) when { resource.a == 1 && resource.b == "x" };"#,
    )
    .unwrap()
    .unwrap();
    assert_eq!(
        expr,
        binary(eq(col("a"), lit_i64(1)), Operator::And, eq(col("b"), lit_str("x")))
    );
}

#[test]
fn disjunction_and_comparisons() {
    let expr = predicate(
        r#"permit(principal, action, resource) when { resource.a < 1 || resource.b >= 2 };"#,
    )
    .unwrap()
    .unwrap();
    assert_eq!(
        expr,
        binary(
            binary(col("a"), Operator::Lt, lit_i64(1)),
            Operator::Or,
            binary(col("b"), Operator::GtEq, lit_i64(2))
        )
    );
}

#[test]
fn unless_clause_is_negated() {
    let expr = predicate(r#"permit(principal, action, resource) unless { resource.a == 1 };"#)
        .unwrap()
        .unwrap();
    assert_eq!(expr, Expr::Not(Box::new(eq(col("a"), lit_i64(1)))));
}

#[test]
fn unless_true_denies_all_rows() {
    // `unless { true }` is `when { false }`: every row is denied.
    let expr = predicate(r#"permit(principal, action, resource) unless { true };"#)
        .unwrap()
        .unwrap();
    assert_eq!(expr, lit_bool(false));
}

#[test]
fn when_true_contributes_nothing() {
    let pred = predicate(r#"permit(principal, action, resource) when { true };"#).unwrap();
    assert_eq!(pred, None);
}

#[test]
fn like_translates_to_sql_like() {
    let expr =
        predicate(r#"permit(principal, action, resource) when { resource.name like "a*c" };"#)
            .unwrap()
            .unwrap();
    assert_eq!(expr, Expr::Like(Box::new(col("name")), "a%c".to_string()));
}

#[test]
fn like_escapes_sql_metacharacters() {
    // A literal `_` in the pattern must be escaped for SQL LIKE.
    let expr =
        predicate(r#"permit(principal, action, resource) when { resource.name like "a_b" };"#)
            .unwrap()
            .unwrap();
    assert_eq!(expr, Expr::Like(Box::new(col("name")), "a\\_b".to_string()));
}

#[test]
fn non_resource_attribute_fails_closed() {
    // A surviving principal attribute is not a column reference.
    assert!(
        predicate(r#"permit(principal, action, resource) when { principal.role == "admin" };"#)
            .is_err()
    );
}

#[test]
fn tag_op_is_not_a_row_predicate() {
    assert!(
        predicate(r#"permit(principal, action, resource) when { resource.hasTag("pii") };"#)
            .is_err()
    );
}

#[test]
fn trivially_true_clause_yields_no_predicate() {
    let pred = predicate(r#"permit(principal, action, resource) when { true };"#).unwrap();
    assert!(pred.is_none());
}

#[test]
fn each_fault_has_its_variant() {
    let faults = [
        (r#"when { principal.role == "admin" }"#, ResidualError::NonResourceAttribute("role".into())),
        (r#"when { -resource.a == 1 }"#, ResidualError::UnsupportedUnary),
        (r#"when { resource.a + 1 == 2 }"#, ResidualError::UnsupportedBinary),
        (r#"when { resource.a == User::"x" }"#, ResidualError::EntityLiteral),
        (r#"when { resource has a }"#, ResidualError::UnsupportedExpression),
    ];
    for (clause, fault) in faults {
        let src = format!("permit(principal, action, resource) {clause};");
        assert_eq!(predicate(&src), Err(fault), "{clause}");
    }
}

#[test]
fn every_comparison_has_its_operator() {
    for (text, op) in [
        ("==", Operator::Eq),
        ("!=", Operator::NotEq),
        ("<", Operator::Lt),
        ("<=", Operator::LtEq),
        (">", Operator::Gt),
        (">=", Operator::GtEq),
    ] {
        let src = format!("permit(principal, action, resource) when {{ resource.a {text} 5 }};");
        assert_eq!(predicate(&src), Ok(Some(binary(col("a"), op, lit_i64(5)))), "{text}");
    }
}

#[test]
fn several_clauses_are_conjoined_in_order() {
    let expr = predicate(
        r#"permit(principal, action, resource)
           when { resource.a == 1 } unless { resource.b == 2 } when { resource.c };"#,
    )
    .unwrap()
    .unwrap();
    let two = binary(
        eq(col("a"), lit_i64(1)),
        Operator::And,
        Expr::Not(Box::new(eq(col("b"), lit_i64(2)))),
    );
    assert_eq!(expr, binary(two, Operator::And, col("c")));
}

#[test]
fn resource_uid_literal_is_the_resource_when_known() {
    let base = || {
        ResidualExpr::Entity(EntityName {
            entity_type: "Table".to_string(),
            id: "prod.customers.accounts".to_string(),
        })
    };
    let node = || {
        ResidualExpr::Binary(
            ResidualOp::Eq,
            Box::new(ResidualExpr::GetAttr(Box::new(base()), "region".to_string())),
            Box::new(ResidualExpr::Text("eu".to_string())),
        )
    };
    let known = CedarResidualTranslator::with_resource_uid(EntityName {
        entity_type: "Table".to_string(),
        id: "prod.customers.accounts".to_string(),
    });
    assert_eq!(known.translate_expr(&node()), Ok(eq(col("region"), lit_str("eu"))));
    // Another table's literal is not the resource, nor is any where none is known.
    let other = CedarResidualTranslator::with_resource_uid(EntityName {
        entity_type: "Table".to_string(),
        id: "prod.customers.orders".to_string(),
    });
    assert!(other.translate_expr(&node()).is_err());
    assert!(CedarResidualTranslator::new().translate_expr(&node()).is_err());
}

#[test]
fn unknown_resource_is_the_resource() {
    let translator = CedarResidualTranslator::new();
    let attr = |name: &str| {
        ResidualExpr::GetAttr(Box::new(ResidualExpr::Unknown(name.to_string())), "a".to_string())
    };
    assert_eq!(translator.translate_expr(&attr("resource")), Ok(col("a")));
    assert!(translator.translate_expr(&attr("principal")).is_err());
}

#[test]
fn pattern_metacharacters_are_escaped() {
    let like = ResidualExpr::Like(
        Box::new(ResidualExpr::GetAttr(Box::new(ResidualExpr::Resource), "n".to_string())),
        vec![
            PatternElem::Char('%'),
            PatternElem::Char('\\'),
            PatternElem::Wildcard,
            PatternElem::Char('x'),
        ],
    );
    assert_eq!(
        CedarResidualTranslator::new().translate_expr(&like),
        Ok(Expr::Like(Box::new(col("n")), "\\%\\\\%x".to_string()))
    );
}

#[test]
fn no_clause_means_no_predicate() {
    let none: Vec<Clause> = vec![];
    assert_eq!(CedarResidualTranslator::new().clauses_to_predicate(&none), Ok(None));
}
