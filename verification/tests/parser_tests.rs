use monkey_lang::ast::{Expression, Node, Program, Statement};
use monkey_lang::lexer::Lexer;
use monkey_lang::parser::Parser;

struct ExpectedIdentifier(String);

fn check_parser_errors(p: Parser) {
    let errors = p.errors();
    if errors.len() == 0 {
        return;
    }
    println!("Parser has {} errors.", errors.len());
    errors.iter().for_each(|err| {
        println!("Parser error: {}", err.0);
    });
    panic!()
}

#[test]
fn test_let_statements() {
    let input = r#"
let x = 5;
let y = 10;
let foobar = 838383;
"#;
    let l = Lexer::new(input.to_string());
    let mut p = Parser::new(l);

    let program = p.parse_program();

    check_parser_errors(p);

    assert!(
        program.statements.len() == 3,
        "Program.statements does not contain 3 statements, got: {}. Statements: {:?}",
        program.statements.len(),
        program.statements
    );

    let tests: Vec<ExpectedIdentifier> = vec![
        ExpectedIdentifier("x".to_string()),
        ExpectedIdentifier("y".to_string()),
        ExpectedIdentifier("foobar".to_string()),
    ];

    for (i, expected_identifier) in tests.iter().enumerate() {
        let statement = program
            .statements
            .get(i)
            .expect("Failed to index into program.statements");

        assert!(test_let_statement(statement, expected_identifier.0.clone()));
    }
}

fn test_let_statement(s: &Statement, name: String) -> bool {
    if s.token_literal() != "let" {
        println!("token_literal is not 'let', got {}", s.token_literal());
        return false;
    }

    if let Statement::Let(statement_data) = s {
        if statement_data.name.get_expression().unwrap().value != name {
            println!(
                "let_statement.name.value not {}, got {}",
                name,
                statement_data.name.get_expression().unwrap().value
            );
            return false;
        }
        if statement_data.name.token_literal() != name {
            println!(
                "let_statement.name not {}, got {:?}",
                name, statement_data.name
            );
            return false;
        }
        return true;
    }

    println!("Statement is not Let, got {:?}", s);
    return false;
}

#[test]
fn test_return_statements() {
    let input = r#"
return 5;
return 10;
return 993322;
"#;

    let l = Lexer::new(input.to_string());
    let mut p = Parser::new(l);

    let program = p.parse_program();
    check_parser_errors(p);

    assert!(
        program.statements.len() == 3,
        "Program.statements does not contain 3 statements, got: {}. Statements: {:?}",
        program.statements.len(),
        program.statements
    );

    let mut fail_count = 0;

    program.statements.iter().for_each(|statement| {
        if statement.token_literal() != "return" {
            println!(
                "return_statement.token_literal not 'return', got: {}",
                statement.token_literal()
            );
            fail_count += 1;
        }
        if let Statement::Return(_) = statement {
        } else {
            println!("statement is not a ReturnStatement. Got {:?}", statement);
            fail_count += 1;
        }
    });
    assert_eq!(
        fail_count, 0,
        "More than one return statement test failed, check logs above this."
    );
}

fn extract_expression(program: Program) -> Expression {
    let stmt = program
        .statements
        .get(0)
        .expect("Did not have any statements.");

    let expression_stmt = match stmt {
        Statement::Expression(s) => s,
        s => panic!(
            "program.statements[0] is not an ExpressionStatement, got {:?}",
            s
        ),
    };

    expression_stmt.expression.as_ref().unwrap().clone()
}

#[test]
fn test_identifier_expression() {
    let input = "foobar;";

    let l = Lexer::new(input.to_string());
    let mut p = Parser::new(l);
    let program = p.parse_program();
    check_parser_errors(p);

    assert_eq!(
        program.statements.len(),
        1,
        "program doesn't have 1 statement, got {}. Statements: {:?}",
        program.statements.len(),
        program.statements
    );

    let ident_expression = extract_expression(program);
    let ident = match ident_expression {
        Expression::Identifier(ref i) => i,
        e => panic!("expression not Identifier, got {:?}", e),
    };

    assert_eq!(
        ident.value, "foobar",
        "ident.value not 'foobar', got {}",
        ident.value
    );
    assert_eq!(
        ident_expression.token_literal(),
        "foobar",
        "ident token_literal() not 'foobar', got {}",
        ident_expression.token_literal()
    );
}

#[test]
fn test_integer_literal_expression() {
    let input = "5;";

    let l = Lexer::new(input.to_string());
    let mut p = Parser::new(l);
    let program = p.parse_program();
    check_parser_errors(p);

    assert_eq!(
        program.statements.len(),
        1,
        "program doesn't have 1 statement, got {}. Statements: {:?}",
        program.statements.len(),
        program.statements
    );

    let integer_literal_expression = extract_expression(program);
    let integer_literal = match integer_literal_expression {
        Expression::IntegerLiteral(ref i) => i,
        e => panic!("expression not IntegerLiteral, got {:?}", e),
    };

    assert_eq!(
        integer_literal.value.unwrap(),
        5,
        "literal.value not 5, got {}",
        integer_literal.value.unwrap()
    );
    assert_eq!(
        integer_literal_expression.token_literal(),
        "5",
        "literal.token_literal() not 5, got {}",
        integer_literal_expression.token_literal()
    );
}

struct PrefixTest {
    input: String,
    operator: String,
    integer_value: i64,
}
impl PrefixTest {
    fn new(input: &str, operator: &str, integer_value: i64) -> PrefixTest {
        PrefixTest {
            input: input.to_string(),
            operator: operator.to_string(),
            integer_value,
        }
    }
}

#[test]
fn test_parsing_prefix_expressions() {
    let prefix_tests: Vec<PrefixTest> = vec![
        PrefixTest::new("!5;", "!", 5),
        PrefixTest::new("-15;", "-", 15),
    ];

    prefix_tests.into_iter().for_each(|test| {
        let l = Lexer::new(test.input);
        let mut p = Parser::new(l);
        let program = p.parse_program();
        check_parser_errors(p);

        assert!(
            program.statements.len() == 1,
            "program.statements does not contain 1 statement. Got: {}. Statements: {:?}",
            program.statements.len(),
            program.statements
        );

        let prefix_expression = extract_expression(program);
        let prefix = match prefix_expression {
            Expression::PrefixExpression(p) => p,
            e => panic!("expression not PrefixExpression, got {:?}", e),
        };

        assert_eq!(
            prefix.operator, test.operator,
            "prefix_expression.operator is not {}. Got {}",
            prefix.operator, test.operator
        );

        assert!(test_integer_literal(*prefix.right, test.integer_value));
    });
}

fn test_integer_literal(il_expression: Expression, value: i64) -> bool {
    if let Expression::IntegerLiteral(ref int_literal) = il_expression {
        if int_literal.value.unwrap() != value {
            println!(
                "int_literal.value not {}, got: {}",
                value,
                int_literal.value.unwrap()
            );
            false
        } else if il_expression.token_literal() != value.to_string() {
            println!(
                "il_expression.token_literal not {}, got: {}",
                value.to_string(),
                il_expression.token_literal()
            );
            false
        } else {
            true
        }
    } else {
        println!(
            "int_literal not Expression::IntegerLiteral, got: {:?}",
            il_expression
        );
        false
    }
}

#[test]
fn test_let_statement_missing_assign() {
    let input = "let x 5;";
    let l = Lexer::new(input.to_string());
    let mut p = Parser::new(l);
    let program = p.parse_program();
    let errors = p.errors();

    assert!(!errors.is_empty(), "expected parse errors, got none");
    assert_eq!(
        errors[0].0,
        "Expected next token to be Assign, got Int instead."
    );
    // The let statement itself is dropped; the `5` is then picked up as an
    // expression statement of its own.
    assert_eq!(program.statements.len(), 1);
    assert!(matches!(program.statements[0], Statement::Expression(_)));
}

#[test]
fn test_let_statement_missing_name() {
    let input = "let = 10;";
    let l = Lexer::new(input.to_string());
    let mut p = Parser::new(l);
    let program = p.parse_program();
    let errors = p.errors();

    assert!(!errors.is_empty(), "expected parse errors, got none");
    assert_eq!(
        errors[0].0,
        "Expected next token to be Ident, got Assign instead."
    );
    // The let statement is dropped; the `=` has no prefix handler and is
    // reported too, and the `10` is then parsed as an expression statement.
    assert_eq!(errors.len(), 2);
    assert_eq!(program.statements.len(), 1);
    assert!(matches!(program.statements[0], Statement::Expression(_)));
}

#[test]
fn test_no_prefix_parse_fn_error() {
    let input = ";;";
    let l = Lexer::new(input.to_string());
    let mut p = Parser::new(l);
    let program = p.parse_program();
    let errors = p.errors();

    assert_eq!(program.statements.len(), 0);
    assert_eq!(errors.len(), 1);
    assert_eq!(errors[0].0, "No prefix parse function found for Semicolon");
}

#[test]
fn test_prefix_operator_without_operand() {
    let input = "!;";
    let l = Lexer::new(input.to_string());
    let mut p = Parser::new(l);
    let program = p.parse_program();
    let errors = p.errors();

    assert_eq!(program.statements.len(), 0);
    assert!(!errors.is_empty(), "expected parse errors, got none");
}

#[test]
fn test_integer_literal_out_of_range() {
    let input = "9999999999999999999;";
    let l = Lexer::new(input.to_string());
    let mut p = Parser::new(l);
    let program = p.parse_program();
    let errors = p.errors();

    // The node is still emitted, with an absent value, and the failed
    // conversion is recorded.
    assert_eq!(program.statements.len(), 1);
    assert_eq!(errors.len(), 1);
    assert_eq!(
        errors[0].0,
        "Could not parse 9999999999999999999 as integer"
    );
    let expr = extract_expression(program);
    match expr {
        Expression::IntegerLiteral(i) => assert!(i.value.is_none()),
        e => panic!("expression not IntegerLiteral, got {:?}", e),
    }
}

#[test]
fn test_empty_input() {
    let l = Lexer::new(String::new());
    let mut p = Parser::new(l);
    let program = p.parse_program();
    assert_eq!(program.statements.len(), 0);
    assert_eq!(p.errors().len(), 0);
}

#[test]
fn test_let_without_semicolon_terminates() {
    let input = "let x = 5";
    let l = Lexer::new(input.to_string());
    let mut p = Parser::new(l);
    let program = p.parse_program();
    assert_eq!(program.statements.len(), 1);
    assert_eq!(p.errors().len(), 0);
}

#[test]
fn test_let_statement_value_attached() {
    let l = Lexer::new("let x = 5;".to_string());
    let mut p = Parser::new(l);
    let program = p.parse_program();
    check_parser_errors(p);

    assert_eq!(program.statements.len(), 1);
    match &program.statements[0] {
        Statement::Let(ls) => {
            let value = ls.value.as_ref().expect("let value not attached");
            assert!(test_integer_literal(value.clone(), 5));
        }
        s => panic!("statement not Let, got {:?}", s),
    }
    assert_eq!(program.string(), "let x = 5;");
}

#[test]
fn test_return_statement_value_attached() {
    let l = Lexer::new("return 993322;".to_string());
    let mut p = Parser::new(l);
    let program = p.parse_program();
    check_parser_errors(p);

    assert_eq!(program.statements.len(), 1);
    match &program.statements[0] {
        Statement::Return(rs) => {
            let value = rs.value.as_ref().expect("return value not attached");
            assert!(test_integer_literal(value.clone(), 993322));
        }
        s => panic!("statement not Return, got {:?}", s),
    }
    assert_eq!(program.string(), "return 993322;");
}

#[test]
fn test_let_statement_missing_value() {
    let l = Lexer::new("let x = ;".to_string());
    let mut p = Parser::new(l);
    let program = p.parse_program();
    let errors = p.errors();

    assert_eq!(program.statements.len(), 0);
    assert_eq!(errors.len(), 1);
    assert_eq!(errors[0].0, "No prefix parse function found for Semicolon");
}

#[test]
fn test_parsing_infix_expressions() {
    struct InfixTest {
        input: &'static str,
        left_value: i64,
        operator: &'static str,
        right_value: i64,
    }
    let infix_tests = vec![
        InfixTest { input: "5 + 5;", left_value: 5, operator: "+", right_value: 5 },
        InfixTest { input: "5 - 5;", left_value: 5, operator: "-", right_value: 5 },
        InfixTest { input: "5 * 5;", left_value: 5, operator: "*", right_value: 5 },
        InfixTest { input: "5 / 5;", left_value: 5, operator: "/", right_value: 5 },
        InfixTest { input: "5 > 5;", left_value: 5, operator: ">", right_value: 5 },
        InfixTest { input: "5 < 5;", left_value: 5, operator: "<", right_value: 5 },
        InfixTest { input: "5 == 5;", left_value: 5, operator: "==", right_value: 5 },
        InfixTest { input: "5 != 5;", left_value: 5, operator: "!=", right_value: 5 },
    ];

    for test in infix_tests {
        let l = Lexer::new(test.input.to_string());
        let mut p = Parser::new(l);
        let program = p.parse_program();
        check_parser_errors(p);

        assert_eq!(
            program.statements.len(),
            1,
            "program.statements does not contain 1 statement. Got: {}. Statements: {:?}",
            program.statements.len(),
            program.statements
        );

        let infix_expression = extract_expression(program);
        let infix = match infix_expression {
            Expression::InfixExpression(i) => i,
            e => panic!("expression not InfixExpression, got {:?}", e),
        };

        assert!(test_integer_literal(*infix.left, test.left_value));
        assert_eq!(
            infix.operator, test.operator,
            "infix.operator is not {}. Got {}",
            test.operator, infix.operator
        );
        assert!(test_integer_literal(*infix.right, test.right_value));
    }
}

#[test]
fn test_operator_precedence_parsing() {
    let tests: Vec<(&str, &str)> = vec![
        ("-a * b", "((-a) * b)"),
        ("!-a", "(!(-a))"),
        ("a + b + c", "((a + b) + c)"),
        ("a + b - c", "((a + b) - c)"),
        ("a * b * c", "((a * b) * c)"),
        ("a * b / c", "((a * b) / c)"),
        ("a + b / c", "(a + (b / c))"),
        ("a + b * c + d / e - f", "(((a + (b * c)) + (d / e)) - f)"),
        ("3 + 4; -5 * 5", "(3 + 4)((-5) * 5)"),
        ("5 > 4 == 3 < 4", "((5 > 4) == (3 < 4))"),
        ("5 < 4 != 3 > 4", "((5 < 4) != (3 > 4))"),
        ("3 + 4 * 5 == 3 * 1 + 4 * 5", "((3 + (4 * 5)) == ((3 * 1) + (4 * 5)))"),
    ];

    for (input, expected) in tests {
        let l = Lexer::new(input.to_string());
        let mut p = Parser::new(l);
        let program = p.parse_program();
        check_parser_errors(p);
        assert_eq!(
            program.string(),
            expected,
            "precedence wrong for {:?}",
            input
        );
    }
}

#[test]
fn test_infix_operator_without_right_operand() {
    let l = Lexer::new("5 + ;".to_string());
    let mut p = Parser::new(l);
    let program = p.parse_program();
    let errors = p.errors();

    assert_eq!(program.statements.len(), 0);
    assert!(!errors.is_empty(), "expected parse errors, got none");
}
