use jlox::diag::error;
use jlox::diag::render_runtime_error;
use jlox::environment::Environment;
use jlox::expr::Expr;
use jlox::literal::Value;
use jlox::parser::Parser;
use jlox::printer::AstPrinter;
use jlox::scanner::Scanner;
use jlox::stmt::Stmt;
use jlox::token::Token;
use jlox::token_type::TokenType;

fn scan(source: &str) -> (Vec<Token>, Vec<String>) {
    let mut scanner = Scanner::new(source);
    let tokens = scanner.scan_tokens();
    let diags = scanner.diagnostics().iter().map(|d| d.render()).collect();
    (tokens, diags)
}

fn kinds(tokens: &[Token]) -> Vec<TokenType> {
    tokens.iter().map(|t| t.kind).collect()
}

#[test]
fn scan_always_ends_with_eof_and_empty_lexeme() {
    for source in ["", "1 + 2", "print \"x\";", "@", "\"unterminated", "// only a comment"] {
        let (tokens, _) = scan(source);
        let last = tokens.last().unwrap();
        assert_eq!(last.kind, TokenType::EOF);
        assert_eq!(last.lexeme, "");
    }
}

#[test]
fn scan_arithmetic_token_kinds() {
    let (tokens, diags) = scan("1 + 2 * 3");
    assert!(diags.is_empty());
    assert_eq!(
        kinds(&tokens),
        vec![
            TokenType::NUMBER,
            TokenType::PLUS,
            TokenType::NUMBER,
            TokenType::STAR,
            TokenType::NUMBER,
            TokenType::EOF,
        ]
    );
    assert_eq!(tokens[0].lexeme, "1");
    assert_eq!(tokens[3].lexeme, "*");
}

#[test]
fn scan_two_character_operators() {
    let (tokens, _) = scan("! != = == < <= > >=");
    assert_eq!(
        kinds(&tokens),
        vec![
            TokenType::BANG,
            TokenType::BANG_EQUAL,
            TokenType::EQUAL,
            TokenType::EQUAL_EQUAL,
            TokenType::LESS,
            TokenType::LESS_EQUAL,
            TokenType::GREATER,
            TokenType::GREATER_EQUAL,
            TokenType::EOF,
        ]
    );
}

#[test]
fn scan_keywords_and_identifiers() {
    let (tokens, _) = scan("var x print while whilex _tmp");
    assert_eq!(
        kinds(&tokens),
        vec![
            TokenType::VAR,
            TokenType::IDENTIFIER,
            TokenType::PRINT,
            TokenType::WHILE,
            TokenType::IDENTIFIER,
            TokenType::IDENTIFIER,
            TokenType::EOF,
        ]
    );
}

#[test]
fn scan_trailing_dot_is_not_part_of_number() {
    let (tokens, _) = scan("12.");
    assert_eq!(kinds(&tokens), vec![TokenType::NUMBER, TokenType::DOT, TokenType::EOF]);
    assert_eq!(tokens[0].lexeme, "12");
    let (tokens2, _) = scan("12.5");
    assert_eq!(kinds(&tokens2), vec![TokenType::NUMBER, TokenType::EOF]);
    assert_eq!(tokens2[0].lexeme, "12.5");
}

#[test]
fn scan_string_literal_strips_quotes() {
    let (tokens, diags) = scan("\"hello\"");
    assert!(diags.is_empty());
    assert_eq!(tokens[0].kind, TokenType::STRING);
    assert_eq!(tokens[0].lexeme, "\"hello\"");
    match &tokens[0].literal {
        Value::Str(s) => assert_eq!(s, "hello"),
        _ => panic!("string literal expected"),
    }
}

#[test]
fn unterminated_string_reports_opening_line_and_continues() {
    let (tokens, diags) = scan("print \"hello;");
    assert_eq!(diags, vec!["[line 1] Error: Unterminated string.".to_string()]);
    assert_eq!(kinds(&tokens), vec![TokenType::PRINT, TokenType::EOF]);
}

#[test]
fn unterminated_string_after_newlines() {
    let (_, diags) = scan("1;\n2;\n\"oops");
    assert_eq!(diags, vec!["[line 3] Error: Unterminated string.".to_string()]);
}

#[test]
fn string_with_embedded_newline_advances_line_counter() {
    let (tokens, diags) = scan("\"a\nb\" x");
    assert!(diags.is_empty());
    assert_eq!(tokens[0].kind, TokenType::STRING);
    // the identifier after the string sits on the second line
    assert_eq!(tokens[1].line, 2);
}

#[test]
fn unexpected_character_is_reported_and_skipped() {
    let (tokens, diags) = scan("@ 1");
    assert_eq!(diags, vec!["[line 1] Error: Unexpected character.".to_string()]);
    assert_eq!(kinds(&tokens), vec![TokenType::NUMBER, TokenType::EOF]);
}

#[test]
fn parse_precedence_shapes_the_tree() {
    let (tokens, _) = scan("1 + 2 * 3;");
    let mut parser = Parser::new(tokens);
    let statements = parser.parse().expect("clean parse");
    assert_eq!(statements.len(), 1);
    match &statements[0] {
        Stmt::Expression(Expr::Binary(left, op, right)) => {
            assert_eq!(op.lexeme, "+");
            assert!(matches!(**left, Expr::Literal(Value::Number(_))));
            match &**right {
                Expr::Binary(_, inner_op, _) => assert_eq!(inner_op.lexeme, "*"),
                other => panic!("multiplication expected on the right, got {:?}", other),
            }
        },
        other => panic!("binary expression statement expected, got {:?}", other),
    }
}

#[test]
fn parse_continues_after_invalid_assignment_target() {
    let (tokens, _) = scan("1 = 2; print 4;");
    let mut parser = Parser::new(tokens);
    let statements = parser.parse().expect("non-fatal diagnostic keeps the parse going");
    assert_eq!(statements.len(), 2);
    let diags: Vec<String> = parser.diagnostics().iter().map(|d| d.render()).collect();
    assert_eq!(diags, vec!["[line 1] Error at '=': Invalid assignment target.".to_string()]);
}

#[test]
fn parse_resynchronizes_at_next_statement() {
    let (tokens, _) = scan("var = 1; print 2;");
    let mut parser = Parser::new(tokens);
    assert!(parser.parse().is_err());
    let diags: Vec<String> = parser.diagnostics().iter().map(|d| d.render()).collect();
    // one diagnostic for the broken declaration, and nothing for the sound one
    assert_eq!(diags, vec!["[line 1] Error at '=': Expect variable name.".to_string()]);
}

#[test]
fn parse_expect_expression_diagnostic() {
    let (tokens, _) = scan(") ;");
    let mut parser = Parser::new(tokens);
    assert!(parser.parse().is_err());
    let diags: Vec<String> = parser.diagnostics().iter().map(|d| d.render()).collect();
    assert_eq!(diags, vec!["[line 1] Error at ')': Expect expression.".to_string()]);
}

#[test]
fn parse_missing_close_paren() {
    let (tokens, _) = scan("(1 + 2;");
    let mut parser = Parser::new(tokens);
    assert!(parser.parse().is_err());
    let diags: Vec<String> = parser.diagnostics().iter().map(|d| d.render()).collect();
    assert_eq!(diags, vec!["[line 1] Error at ';': Expect ')' after expression.".to_string()]);
}

#[test]
fn environment_define_get_assign() {
    let mut env = Environment::new(None);
    let name = Token::new(TokenType::IDENTIFIER, "x".to_string(), Value::Nil, 1);
    assert!(env.get(&name).is_err());
    assert!(env.assign(&name, &Value::Bool(true)).is_err());
    env.define(&"x".to_string(), Value::Bool(false));
    assert!(matches!(env.get(&name), Ok(Value::Bool(false))));
    env.define(&"x".to_string(), Value::Bool(true));
    assert!(matches!(env.get(&name), Ok(Value::Bool(true))));
    assert!(env.assign(&name, &Value::Nil).is_ok());
    assert!(matches!(env.get(&name), Ok(Value::Nil)));
}

#[test]
fn environment_chain_reads_outward_and_defines_locally() {
    let name = Token::new(TokenType::IDENTIFIER, "x".to_string(), Value::Nil, 1);
    let mut outer = Environment::new(None);
    outer.define(&"x".to_string(), Value::Bool(true));
    let mut inner = Environment::new(Some(Box::new(outer)));
    // the inner frame has no binding, so the outer one answers
    assert!(matches!(inner.get(&name), Ok(Value::Bool(true))));
    // assignment writes the innermost frame that binds the name
    assert!(inner.assign(&name, &Value::Bool(false)).is_ok());
    assert!(matches!(inner.get(&name), Ok(Value::Bool(false))));
    // defining in the inner frame shadows without touching the outer one
    inner.define(&"x".to_string(), Value::Nil);
    assert!(matches!(inner.get(&name), Ok(Value::Nil)));
}

#[test]
fn value_predicates_and_unwrappers() {
    let v = Value::Str("abc".to_string());
    assert!(v.is_string());
    assert!(!v.is_nil() && !v.is_number() && !v.is_bool());
    assert_eq!(v.unwrap_string(), "abc");
    let b = Value::Bool(true);
    assert!(b.is_bool());
    assert!(b.unwrap_bool());
    Value::Nil.unwrap_nil();
    assert_eq!(Value::Nil.stringify(), "");
    assert_eq!(Value::Bool(false).stringify(), "false");
}

#[test]
fn ast_printer_renders_operators_first() {
    let (tokens, _) = scan("1 + 2 * 3;");
    let mut parser = Parser::new(tokens);
    let statements = parser.parse().expect("clean parse");
    let expr = match statements.into_iter().next().unwrap() {
        Stmt::Expression(e) => e,
        other => panic!("expression statement expected, got {:?}", other),
    };
    let mut printer = AstPrinter {};
    assert_eq!(printer.print(expr), "(+ 1 (* 2 3))");
}

#[test]
fn ast_printer_renders_groups_and_unary() {
    let (tokens, _) = scan("-(1);");
    let mut parser = Parser::new(tokens);
    let statements = parser.parse().expect("clean parse");
    let expr = match statements.into_iter().next().unwrap() {
        Stmt::Expression(e) => e,
        other => panic!("expression statement expected, got {:?}", other),
    };
    let mut printer = AstPrinter {};
    assert_eq!(printer.print(expr), "(- (group 1))");
}

#[test]
fn diagnostic_rendering() {
    let d = error(3, "Something.".to_string());
    assert_eq!(d.render(), "[line 3] Error: Something.");
}

#[test]
fn runtime_error_rendering() {
    let token = Token::new(TokenType::IDENTIFIER, "x".to_string(), Value::Nil, 2);
    let line = render_runtime_error(&(token, "Undefined variable 'x'.".to_string()));
    assert_eq!(line, "Undefined variable 'x'.\n[line 2]");
}

#[test]
fn token_text_rendering() {
    let (tokens, _) = scan("1.5");
    assert_eq!(tokens[0].to_string(), "NUMBER 1.5 1.5");
    assert_eq!(tokens[1].to_string(), "EOF  ");
}
