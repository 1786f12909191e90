use sql_parser::parser::{gen_parser, gen_parser_create_table_statement, gen_parser_expr,
    gen_parser_insert_statement, gen_parser_select_statement, Expr, Statement};

#[test]
fn test_select_statement() {
    println!(
        "{:?}",
        gen_parser_select_statement().parse("SELECT name, age, hobby as like, talent FROM user WHERE age = 1;")
    );
    println!(
        "{:?}",
        gen_parser_select_statement().parse("select name, age, hobby as like, talent from user where age = 1;")
    );
    assert!(gen_parser_select_statement()
        .parse("SELECT name, age, hobby as like, talent FROM user WHERE age = 1;")
        .is_ok());
    assert!(gen_parser_select_statement()
        .parse("select name, age, hobby as like, talent from user where age = 1;")
        .is_ok());
}

#[test]
fn test_create_table_statement() {
    println!(
        "{:?}",
        gen_parser_create_table_statement()
            .parse("create table user(id string PRIMARY KEY,name string NOT NULL, age int32 NOT NULL, hobby string, talent string);")
    );
    assert!(gen_parser_create_table_statement()
        .parse("create table user(id string PRIMARY KEY,name string NOT NULL, age int32 NOT NULL, hobby string, talent string);")
        .is_ok());
}

#[test]
fn test_insert_statement() {
    println!(
        "{:?}",
        gen_parser_insert_statement()
            .parse("INSERT INTO user (id, name, age, hobby, talent) VALUES ('1', 'linYuan', 3, 'play Game','code');")
    );
    assert!(gen_parser_insert_statement()
        .parse("INSERT INTO user (id, name, age, hobby, talent) VALUES ('1', 'linYuan', 3, 'play Game','code');")
        .is_ok());
}

#[test]
fn test_parser_expr() {
    let parser_expr = gen_parser_expr();
    assert_eq!(
        Expr::Add(Box::new(Expr::Num(1)), Box::new(Expr::Num(2))),
        parser_expr.parse("   1 + 2").unwrap()
    );
    assert_eq!(
        Expr::Equal(
            Box::new(Expr::Neg(Box::new(Expr::Num(99)))),
            Box::new(Expr::Num(2))
        ),
        parser_expr.parse("-99 == 2").unwrap()
    );
    assert_eq!(
        Expr::StringLiteral("hello world".to_string()),
        parser_expr.parse("'hello world'").unwrap()
    );
}

#[test]
fn addition_of_two_numerals() {
    // An instance of the general law: "a + b" parses to Add(Num(a), Num(b)).
    let parser_expr = gen_parser_expr();
    assert_eq!(
        Expr::Add(Box::new(Expr::Num(12)), Box::new(Expr::Num(34))),
        parser_expr.parse("12 + 34").unwrap()
    );
    assert_eq!(
        Expr::Add(Box::new(Expr::Num(0)), Box::new(Expr::Num(2147483647))),
        parser_expr.parse("0 + 2147483647").unwrap()
    );
}

#[test]
fn subtraction_then_equality_left_associates() {
    // "a - b = c" parses as Equal(Sub(a, b), c).
    let parser_expr = gen_parser_expr();
    assert_eq!(
        Expr::Equal(
            Box::new(Expr::Sub(Box::new(Expr::Num(7)), Box::new(Expr::Num(3)))),
            Box::new(Expr::Num(4))
        ),
        parser_expr.parse("7 - 3 = 4").unwrap()
    );
}

#[test]
fn product_binds_tighter_than_sum() {
    let parser_expr = gen_parser_expr();
    assert_eq!(
        Expr::Add(
            Box::new(Expr::Num(1)),
            Box::new(Expr::Mul(Box::new(Expr::Num(2)), Box::new(Expr::Num(3))))
        ),
        parser_expr.parse("1 + 2 * 3").unwrap()
    );
    assert_eq!(
        Expr::Add(
            Box::new(Expr::Mul(Box::new(Expr::Num(2)), Box::new(Expr::Num(3)))),
            Box::new(Expr::Num(1))
        ),
        parser_expr.parse("2 * 3 + 1").unwrap()
    );
}

#[test]
fn parentheses_override_precedence() {
    let parser_expr = gen_parser_expr();
    assert_eq!(
        Expr::Mul(
            Box::new(Expr::Add(Box::new(Expr::Num(1)), Box::new(Expr::Num(2)))),
            Box::new(Expr::Num(3))
        ),
        parser_expr.parse("(1 + 2) * 3").unwrap()
    );
}

#[test]
fn sums_left_associate() {
    let parser_expr = gen_parser_expr();
    assert_eq!(
        Expr::Sub(
            Box::new(Expr::Sub(Box::new(Expr::Num(1)), Box::new(Expr::Num(2)))),
            Box::new(Expr::Num(3))
        ),
        parser_expr.parse("1 - 2 - 3").unwrap()
    );
}

#[test]
fn repeated_equality_left_associates() {
    // "a = b = c" is accepted and folds to Equal(Equal(a, b), c).
    let parser_expr = gen_parser_expr();
    assert_eq!(
        Expr::Equal(
            Box::new(Expr::Equal(
                Box::new(Expr::Var("a1".to_string())),
                Box::new(Expr::Var("b1".to_string()))
            )),
            Box::new(Expr::Var("c1".to_string()))
        ),
        parser_expr.parse("a1 = b1 = c1").unwrap()
    );
}

#[test]
fn nested_negation_folds_rightward() {
    let parser_expr = gen_parser_expr();
    assert_eq!(
        Expr::Neg(Box::new(Expr::Neg(Box::new(Expr::Num(5))))),
        parser_expr.parse("- - 5").unwrap()
    );
}

#[test]
fn numeral_beyond_i32_fails_to_parse() {
    // The original would abort on such a literal; here it is a parse error.
    let parser_expr = gen_parser_expr();
    assert!(parser_expr.parse("2147483648").is_err());
    assert!(parser_expr.parse("99999999999999999999").is_err());
}

#[test]
fn a_string_literal_closes_with_either_quote() {
    // Either quote opens a string and either quote closes it, so a
    // literal opened with one kind may be closed by the other.
    let parser_expr = gen_parser_expr();
    assert_eq!(
        Expr::StringLiteral("abc".to_string()),
        parser_expr.parse("'abc\"").unwrap()
    );
}

#[test]
fn expression_errors_are_structured() {
    let parser_expr = gen_parser_expr();
    assert!(parser_expr.parse("").is_err());
    assert!(parser_expr.parse("&").is_err());
    assert!(parser_expr.parse("'unterminated").is_err());
}

#[test]
fn expression_errors_carry_the_offending_position() {
    let parser_expr = gen_parser_expr();
    // The first character that fits no atom.
    assert_eq!(parser_expr.parse("&").unwrap_err().pos, 0);
    assert_eq!(parser_expr.parse("  &").unwrap_err().pos, 2);
    // Where the missing closing quote was expected.
    assert_eq!(parser_expr.parse("'abc").unwrap_err().pos, 4);
    // Where the missing closing parenthesis was expected.
    assert_eq!(parser_expr.parse("(1").unwrap_err().pos, 2);
}

#[test]
fn reparsing_yields_equal_trees() {
    // Determinism: the same input twice gives structurally equal results.
    let text = "SELECT name, age, hobby AS like, talent FROM user WHERE age = 1;";
    let first = gen_parser().parse(text);
    let second = gen_parser().parse(text);
    assert_eq!(first, second);
    let expr_first = gen_parser_expr().parse("1 + 2 * 3");
    let expr_second = gen_parser_expr().parse("1 + 2 * 3");
    assert_eq!(expr_first, expr_second);
}

#[test]
fn misspelled_keyword_is_a_structured_error() {
    // A misspelled keyword matches none of the three statement forms.
    let result = gen_parser().parse("CREATE TALBE x();");
    assert!(result.is_err());
    // The error points at the furthest any rule reached: the misspelled
    // word after `CREATE`.
    assert_eq!(result.unwrap_err().pos, 7);
}

#[test]
fn statement_dispatch_tries_all_three_forms() {
    assert!(matches!(
        gen_parser().parse("create table t0(ab string);"),
        Ok(Statement::CreateTable { .. })
    ));
    assert!(matches!(
        gen_parser().parse("INSERT INTO t0 (ab) VALUES (1);"),
        Ok(Statement::Insert { .. })
    ));
    assert!(matches!(
        gen_parser().parse("SELECT ab FROM t0;"),
        Ok(Statement::Select { .. })
    ));
    assert!(gen_parser().parse("").is_err());
    assert!(gen_parser().parse("DROP TABLE t0;").is_err());
}

#[test]
fn whole_input_must_be_consumed_by_the_dispatcher() {
    // The standalone rule tolerates trailing text; the dispatcher does not.
    assert!(gen_parser_select_statement()
        .parse("SELECT ab FROM t0; trailing")
        .is_ok());
    assert!(gen_parser().parse("SELECT ab FROM t0; trailing").is_err());
}

#[test]
fn mixed_case_keywords_are_rejected() {
    // Keywords parse in all upper or all lower case only.
    assert!(gen_parser().parse("Select ab FROM t0;").is_err());
    assert!(gen_parser().parse("SELECT ab FROM t0;").is_ok());
    assert!(gen_parser().parse("select ab from t0;").is_ok());
}
