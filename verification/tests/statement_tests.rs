use sql_parser::parser::{gen_parser, gen_parser_select_statement, Expr, Selector, Statement};

#[test]
fn one_letter_selectors_parse() {
    // A selector is a plain identifier, so a single letter is enough.
    let parsed = gen_parser_select_statement().parse("SELECT a FROM t;").unwrap();
    assert_eq!(
        parsed,
        Statement::Select {
            table_name: "t".to_string(),
            selectors: vec![Selector { column_name: "a".to_string(), alias: None }],
            where_conditions: None,
        }
    );
    let parsed = gen_parser_select_statement()
        .parse("SELECT a FROM t WHERE a = 1 b = 2;")
        .unwrap();
    assert_eq!(
        parsed,
        Statement::Select {
            table_name: "t".to_string(),
            selectors: vec![Selector { column_name: "a".to_string(), alias: None }],
            where_conditions: Some(vec![
                Expr::Equal(Box::new(Expr::Var("a".to_string())), Box::new(Expr::Num(1))),
                Expr::Equal(Box::new(Expr::Var("b".to_string())), Box::new(Expr::Num(2))),
            ]),
        }
    );
}

#[test]
fn where_requires_at_least_one_condition() {
    // `WHERE` must be followed by one or more expressions.
    let result = gen_parser().parse("SELECT ab FROM t0 WHERE ;");
    assert!(result.is_err());
    // The reported position is where the first condition should begin.
    assert_eq!(result.unwrap_err().pos, 24);
}

#[test]
fn out_of_order_modifiers_fail() {
    // After `PRIMARY KEY` no further modifier is recognized, and without
    // a comma no further column can begin, so the statement fails.
    assert!(gen_parser()
        .parse("CREATE TABLE t(id string PRIMARY KEY NOT NULL);")
        .is_err());
}

#[test]
fn columns_are_comma_separated() {
    // Two column definitions need a comma between them.
    assert!(gen_parser().parse("create table t0(ab string cd string);").is_err());
    assert!(gen_parser().parse("create table t0(ab string, cd string);").is_ok());
}

#[test]
fn select_statement_structure() {
    // Four selectors, the third aliased, one where-condition.
    let parsed = gen_parser()
        .parse("SELECT name, age, hobby AS like, talent FROM user WHERE age = 1;")
        .unwrap();
    match parsed {
        Statement::Select { table_name, selectors, where_conditions } => {
            assert_eq!(table_name, "user");
            assert_eq!(selectors.len(), 4);
            assert_eq!(selectors[0].column_name, "name");
            assert_eq!(selectors[0].alias, None);
            assert_eq!(selectors[1].column_name, "age");
            assert_eq!(selectors[2].column_name, "hobby");
            assert_eq!(selectors[2].alias, Some("like".to_string()));
            assert_eq!(selectors[3].column_name, "talent");
            assert_eq!(selectors[3].alias, None);
            let conditions = where_conditions.expect("a where clause");
            assert_eq!(conditions.len(), 1);
            assert_eq!(
                conditions[0],
                Expr::Equal(
                    Box::new(Expr::Var("age".to_string())),
                    Box::new(Expr::Num(1))
                )
            );
        }
        other => panic!("expected a select statement, got {:?}", other),
    }
}

#[test]
fn create_table_statement_structure() {
    // Five columns; `id` is the primary key, `name` and `age` are not
    // null, and nothing auto-increments.
    let parsed = gen_parser()
        .parse("CREATE TABLE user(id string PRIMARY KEY, name string NOT NULL, age int32 NOT NULL, hobby string, talent string);")
        .unwrap();
    match parsed {
        Statement::CreateTable { table_name, columns } => {
            assert_eq!(table_name, "user");
            assert_eq!(columns.len(), 5);
            let names: Vec<&str> = columns.iter().map(|c| c.name.as_str()).collect();
            assert_eq!(names, vec!["id", "name", "age", "hobby", "talent"]);
            assert_eq!(columns[0].v_type, "string");
            assert_eq!(columns[2].v_type, "int32");
            for (i, column) in columns.iter().enumerate() {
                assert_eq!(column.is_primary_key, i == 0);
                assert_eq!(column.is_not_null, i == 1 || i == 2);
                assert!(!column.auto_increment);
            }
        }
        other => panic!("expected a create-table statement, got {:?}", other),
    }
}

#[test]
fn insert_statement_structure() {
    // Five field names and five values; the third value is numeric, the
    // rest are string literals.
    let parsed = gen_parser()
        .parse("INSERT INTO user (id, name, age, hobby, talent) VALUES ('1', 'linYuan', 3, 'play Game', 'code');")
        .unwrap();
    match parsed {
        Statement::Insert { table_name, field_names, values } => {
            assert_eq!(table_name, "user");
            assert_eq!(
                field_names,
                vec!["id", "name", "age", "hobby", "talent"]
            );
            assert_eq!(values.len(), 5);
            assert_eq!(values[0], Expr::StringLiteral("1".to_string()));
            assert_eq!(values[1], Expr::StringLiteral("linYuan".to_string()));
            assert_eq!(values[2], Expr::Num(3));
            assert_eq!(values[3], Expr::StringLiteral("play Game".to_string()));
            assert_eq!(values[4], Expr::StringLiteral("code".to_string()));
        }
        other => panic!("expected an insert statement, got {:?}", other),
    }
}

#[test]
fn where_accepts_several_bare_conditions() {
    // Conditions may follow one another with no connector; each is kept
    // as its own entry, in order.
    let parsed = gen_parser()
        .parse("SELECT ab FROM t0 WHERE xs = 1 ys = 2;")
        .unwrap();
    match parsed {
        Statement::Select { where_conditions, .. } => {
            let conditions = where_conditions.expect("a where clause");
            assert_eq!(conditions.len(), 2);
            assert_eq!(
                conditions[0],
                Expr::Equal(Box::new(Expr::Var("xs".to_string())), Box::new(Expr::Num(1)))
            );
            assert_eq!(
                conditions[1],
                Expr::Equal(Box::new(Expr::Var("ys".to_string())), Box::new(Expr::Num(2)))
            );
        }
        other => panic!("expected a select statement, got {:?}", other),
    }
}

#[test]
fn where_clause_is_optional() {
    let parsed = gen_parser().parse("SELECT ab FROM t0;").unwrap();
    match parsed {
        Statement::Select { where_conditions, .. } => {
            assert!(where_conditions.is_none());
        }
        other => panic!("expected a select statement, got {:?}", other),
    }
}

#[test]
fn trailing_comma_after_last_column_is_tolerated() {
    let parsed = gen_parser().parse("create table t0(ab string,);").unwrap();
    match parsed {
        Statement::CreateTable { columns, .. } => {
            assert_eq!(columns.len(), 1);
            assert_eq!(columns[0].name, "ab");
        }
        other => panic!("expected a create-table statement, got {:?}", other),
    }
}

#[test]
fn modifiers_are_recognized_in_one_order_only() {
    // In their fixed order all three modifiers are recognized.
    let parsed = gen_parser()
        .parse("create table t0(ab string NOT NULL AUTO_INCREMENT PRIMARY KEY);")
        .unwrap();
    match parsed {
        Statement::CreateTable { columns, .. } => {
            assert_eq!(columns.len(), 1);
            assert!(columns[0].is_not_null);
            assert!(columns[0].auto_increment);
            assert!(columns[0].is_primary_key);
        }
        other => panic!("expected a create-table statement, got {:?}", other),
    }
    // Out of order they are not reordered: a modifier after `PRIMARY KEY`
    // is never read as a modifier, and here nothing else can absorb it.
    assert!(gen_parser()
        .parse("create table t0(ab string PRIMARY KEY AUTO_INCREMENT);")
        .is_err());
}

#[test]
fn insert_counts_are_not_cross_validated() {
    // A mismatch between field and value counts is left to the consumer.
    let parsed = gen_parser()
        .parse("INSERT INTO t0 (ab, cd) VALUES (1);")
        .unwrap();
    match parsed {
        Statement::Insert { field_names, values, .. } => {
            assert_eq!(field_names.len(), 2);
            assert_eq!(values.len(), 1);
        }
        other => panic!("expected an insert statement, got {:?}", other),
    }
}

#[test]
fn selector_list_may_be_empty() {
    // The selector repetition admits zero selectors, so the list may run
    // out directly before `FROM`.
    let parsed = gen_parser().parse("SELECT FROM t0;").unwrap();
    match parsed {
        Statement::Select { selectors, table_name, .. } => {
            assert_eq!(selectors.len(), 0);
            assert_eq!(table_name, "t0");
        }
        other => panic!("expected a select statement, got {:?}", other),
    }
}

#[test]
fn string_values_accept_either_quote() {
    let parsed = gen_parser()
        .parse("INSERT INTO t0 (ab) VALUES (\"one\");")
        .unwrap();
    match parsed {
        Statement::Insert { values, .. } => {
            assert_eq!(values[0], Expr::StringLiteral("one".to_string()));
        }
        other => panic!("expected an insert statement, got {:?}", other),
    }
}
