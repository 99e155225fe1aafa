use arc::chunk::{Chunk, OpCode};
use arc::compiler::{get_rule, Compiler, Diagnostic, ParseFn, ParseRule, Parser, Place, Precedence};
use arc::scanner::number_literals;
use arc::token::TokenType;
use arc::value::Value;

const CONSTANT: u8 = 0;
const RETURN: u8 = 1;
const NEGATE: u8 = 2;
const ADD: u8 = 3;
const SUBTRACT: u8 = 4;
const MULTIPLY: u8 = 5;
const DIVIDE: u8 = 6;
const NIL: u8 = 7;
const TRUE: u8 = 8;
const FALSE: u8 = 9;
const NOT: u8 = 10;
const EQUAL: u8 = 11;
const GREATER: u8 = 12;
const LESS: u8 = 13;
const PRINT: u8 = 14;
const POP: u8 = 15;
const DEFINE_GLOBAL: u8 = 16;
const GET_GLOBAL: u8 = 17;
const SET_GLOBAL: u8 = 18;

fn number_values(source: &str) -> Vec<u64> {
    number_literals(source.to_string())
        .iter()
        .map(|text| text.parse::<f64>().unwrap().to_bits())
        .collect()
}

fn compile(source: &str) -> (bool, Chunk, Vec<Diagnostic>) {
    let mut compiler = Compiler::new(Chunk::new());
    let had_error = compiler.compile(source.to_string(), number_values(source));
    assert_eq!(had_error, compiler.had_error());
    let (chunk, diagnostics) = compiler.into_parts();
    (had_error, chunk, diagnostics)
}

fn code(source: &str) -> Vec<u8> {
    let (had_error, chunk, diagnostics) = compile(source);
    assert!(!had_error, "{:?}", diagnostics);
    assert!(diagnostics.is_empty());
    assert_eq!(chunk.code.len(), chunk.lines.len());
    chunk.code
}

fn constants(source: &str) -> Vec<Value> {
    compile(source).1.constants.values
}

fn number(x: f64) -> Value {
    Value::Number(x.to_bits())
}

fn text(s: &str) -> Value {
    Value::Str(s.to_string())
}

fn messages(source: &str) -> Vec<String> {
    let (had_error, _, diagnostics) = compile(source);
    assert_eq!(had_error, !diagnostics.is_empty());
    diagnostics.iter().map(|d| d.message.clone()).collect()
}

#[test]
fn empty_program_only_returns() {
    let (had_error, chunk, diagnostics) = compile("");
    assert!(!had_error);
    assert!(diagnostics.is_empty());
    assert_eq!(chunk.code, vec![RETURN]);
    assert_eq!(chunk.lines, vec![1]);
    assert_eq!(chunk.constants.len(), 0);
}

#[test]
fn multiplication_is_compiled_before_addition() {
    assert_eq!(
        code("print 1 + 2 * 3;"),
        vec![CONSTANT, 0, CONSTANT, 1, CONSTANT, 2, MULTIPLY, ADD, PRINT, RETURN]
    );
    assert_eq!(constants("print 1 + 2 * 3;"), vec![number(1.0), number(2.0), number(3.0)]);
}

#[test]
fn parentheses_override_precedence() {
    assert_eq!(
        code("print (1 + 2) * 3;"),
        vec![CONSTANT, 0, CONSTANT, 1, ADD, CONSTANT, 2, MULTIPLY, PRINT, RETURN]
    );
}

#[test]
fn operators_of_one_level_group_to_the_left() {
    assert_eq!(
        code("print 8 - 4 - 2;"),
        vec![CONSTANT, 0, CONSTANT, 1, SUBTRACT, CONSTANT, 2, SUBTRACT, PRINT, RETURN]
    );
    assert_eq!(
        code("print 8 / 4 * 2;"),
        vec![CONSTANT, 0, CONSTANT, 1, DIVIDE, CONSTANT, 2, MULTIPLY, PRINT, RETURN]
    );
}

#[test]
fn comparison_binds_looser_than_arithmetic_and_tighter_than_equality() {
    assert_eq!(
        code("print 1 + 2 < 4 == true;"),
        vec![CONSTANT, 0, CONSTANT, 1, ADD, CONSTANT, 2, LESS, TRUE, EQUAL, PRINT, RETURN]
    );
}

#[test]
fn negated_comparisons_are_two_instructions() {
    assert_eq!(code("1 != 2;"), vec![CONSTANT, 0, CONSTANT, 1, EQUAL, NOT, POP, RETURN]);
    assert_eq!(code("1 >= 2;"), vec![CONSTANT, 0, CONSTANT, 1, LESS, NOT, POP, RETURN]);
    assert_eq!(code("1 <= 2;"), vec![CONSTANT, 0, CONSTANT, 1, GREATER, NOT, POP, RETURN]);
    assert_eq!(code("1 > 2;"), vec![CONSTANT, 0, CONSTANT, 1, GREATER, POP, RETURN]);
    assert_eq!(code("1 < 2;"), vec![CONSTANT, 0, CONSTANT, 1, LESS, POP, RETURN]);
    assert_eq!(code("1 == 2;"), vec![CONSTANT, 0, CONSTANT, 1, EQUAL, POP, RETURN]);
}

#[test]
fn unary_operators_follow_their_operand() {
    assert_eq!(code("print -1;"), vec![CONSTANT, 0, NEGATE, PRINT, RETURN]);
    assert_eq!(code("print !true;"), vec![TRUE, NOT, PRINT, RETURN]);
    assert_eq!(code("print !!nil;"), vec![NIL, NOT, NOT, PRINT, RETURN]);
    assert_eq!(
        code("print -1 - -2;"),
        vec![CONSTANT, 0, NEGATE, CONSTANT, 1, NEGATE, SUBTRACT, PRINT, RETURN]
    );
    assert_eq!(code("print -2 * 3;"), vec![CONSTANT, 0, NEGATE, CONSTANT, 1, MULTIPLY, PRINT, RETURN]);
}

#[test]
fn literals() {
    assert_eq!(code("false; true; nil;"), vec![FALSE, POP, TRUE, POP, NIL, POP, RETURN]);
}

#[test]
fn string_constant_loses_its_quotes() {
    assert_eq!(code("print \"hi\";"), vec![CONSTANT, 0, PRINT, RETURN]);
    assert_eq!(constants("print \"hi\";"), vec![text("hi")]);
    assert_eq!(constants("print \"\";"), vec![text("")]);
    assert_eq!(constants("print \"a\nb\";"), vec![text("a\nb")]);
}

#[test]
fn number_constants_take_the_supplied_values() {
    assert_eq!(constants("print 0.5 + 12;"), vec![number(0.5), number(12.0)]);
    let mut compiler = Compiler::new(Chunk::new());
    let had_error = compiler.compile("print 1 + 2;".to_string(), vec![7, 9]);
    assert!(!had_error);
    assert_eq!(compiler.chunk().constants.values, vec![Value::Number(7), Value::Number(9)]);
}

#[test]
fn a_number_literal_without_a_value_is_an_error() {
    let mut compiler = Compiler::new(Chunk::new());
    let had_error = compiler.compile("print 1 + 2;".to_string(), vec![7]);
    assert!(had_error);
    let diagnostics = compiler.diagnostics();
    assert_eq!(diagnostics.len(), 1);
    assert_eq!(diagnostics[0].message, "Number literal has no value.");
    assert_eq!(diagnostics[0].place, Place::Lexeme("2".to_string()));
    assert_eq!(diagnostics[0].line, 1);
}

#[test]
fn variable_declaration_with_and_without_initialiser() {
    assert_eq!(code("var x = 5;"), vec![CONSTANT, 1, DEFINE_GLOBAL, 0, RETURN]);
    assert_eq!(constants("var x = 5;"), vec![text("x"), number(5.0)]);
    assert_eq!(code("var x;"), vec![NIL, DEFINE_GLOBAL, 0, RETURN]);
    assert_eq!(constants("var x;"), vec![text("x")]);
}

#[test]
fn variable_reference_loads_by_name() {
    assert_eq!(code("print x;"), vec![GET_GLOBAL, 0, PRINT, RETURN]);
    assert_eq!(constants("print x;"), vec![text("x")]);
    assert_eq!(constants("print x + x;"), vec![text("x"), text("x")]);
}

#[test]
fn assignment_stores_by_name() {
    assert_eq!(code("x = 6;"), vec![CONSTANT, 1, SET_GLOBAL, 0, POP, RETURN]);
    assert_eq!(constants("x = 6;"), vec![text("x"), number(6.0)]);
    assert_eq!(
        code("x = y = 1;"),
        vec![CONSTANT, 2, SET_GLOBAL, 1, SET_GLOBAL, 0, POP, RETURN]
    );
}

#[test]
fn assignment_is_not_taken_inside_an_operand() {
    assert_eq!(messages("a + b = 1;"), vec!["Expect ; after Expression"]);
    assert_eq!(messages("1 = 2;"), vec!["Expect ; after Expression"]);
    assert_eq!(messages("-a = 2;"), vec!["Expect ; after Expression"]);
}

#[test]
fn assignment_is_taken_inside_parentheses() {
    assert_eq!(code("(x = 1);"), vec![CONSTANT, 1, SET_GLOBAL, 0, POP, RETURN]);
}

#[test]
fn each_byte_has_the_line_of_the_token_consumed_last() {
    let (had_error, chunk, _) = compile("print 1;\nprint\n2 +\n3;\n");
    assert!(!had_error);
    assert_eq!(
        chunk.code,
        vec![CONSTANT, 0, PRINT, CONSTANT, 1, CONSTANT, 2, ADD, PRINT, RETURN]
    );
    assert_eq!(chunk.lines, vec![1, 1, 1, 3, 3, 4, 4, 4, 4, 5]);
}

#[test]
fn missing_expression() {
    let (had_error, _, diagnostics) = compile("print ;");
    assert!(had_error);
    assert_eq!(
        diagnostics,
        vec![Diagnostic {
            line: 1,
            place: Place::Lexeme(";".to_string()),
            message: "Expect expression.".to_string(),
        }]
    );
}

#[test]
fn missing_semicolon_at_the_end() {
    let (had_error, _, diagnostics) = compile("print 1");
    assert!(had_error);
    assert_eq!(
        diagnostics,
        vec![Diagnostic {
            line: 1,
            place: Place::End,
            message: "Expect ';' after value.".to_string(),
        }]
    );
    assert_eq!(messages("1 + 2"), vec!["Expect ; after Expression"]);
    assert_eq!(messages("var x = 1"), vec!["Expect ; after variable declaration"]);
}

#[test]
fn missing_variable_name() {
    assert_eq!(messages("var = 1;"), vec!["Expect variable name."]);
    assert_eq!(messages("var 1;"), vec!["Expect variable name."]);
}

#[test]
fn missing_closing_parenthesis() {
    let (_, _, diagnostics) = compile("print (1 + 2;");
    assert_eq!(diagnostics.len(), 1);
    assert_eq!(diagnostics[0].message, "Expect ')' after expression.");
    assert_eq!(diagnostics[0].place, Place::Lexeme(";".to_string()));
}

#[test]
fn scanner_errors_are_compile_errors() {
    let (had_error, _, diagnostics) = compile("print @;");
    assert!(had_error);
    assert_eq!(diagnostics[0].message, "Unexpected character.");
    assert_eq!(diagnostics[0].place, Place::Nowhere);
    assert_eq!(diagnostics[0].line, 1);
    let (had_error, _, diagnostics) = compile("print 1;\nprint \"abc");
    assert!(had_error);
    assert_eq!(diagnostics[0].message, "Unterminated string.");
    assert_eq!(diagnostics[0].place, Place::Nowhere);
    assert_eq!(diagnostics[0].line, 2);
}

#[test]
fn reserved_words_without_a_rule_do_not_start_an_expression() {
    assert_eq!(messages("class;"), vec!["Expect expression."]);
    assert_eq!(messages("print and;"), vec!["Expect expression."]);
    assert_eq!(messages("+ 1;"), vec!["Expect expression."]);
}

#[test]
fn one_error_is_reported_once() {
    let (had_error, _, diagnostics) = compile("print 1 + * / 2 3 4;");
    assert!(had_error);
    assert_eq!(diagnostics.len(), 1);
    assert_eq!(diagnostics[0].message, "Expect expression.");
    assert_eq!(diagnostics[0].place, Place::Lexeme("*".to_string()));
}

#[test]
fn an_error_on_one_line_leaves_the_other_lines_alone() {
    let source = "print 1;\nprint 2 +;\nprint 3;\n";
    let (had_error, chunk, diagnostics) = compile(source);
    assert!(had_error);
    assert_eq!(
        diagnostics,
        vec![Diagnostic {
            line: 2,
            place: Place::Lexeme(";".to_string()),
            message: "Expect expression.".to_string(),
        }]
    );
    assert_eq!(chunk.constants.values, vec![number(1.0), number(2.0), number(3.0)]);
    let tail = &chunk.code[chunk.code.len() - 4..];
    assert_eq!(tail, &[CONSTANT, 2, PRINT, RETURN]);
}

#[test]
fn errors_in_separate_statements_are_each_reported() {
    let source = "print ;\nvar x = 1;\nvar = 2;\nprint x;\nprint (3;\n";
    let (had_error, _, diagnostics) = compile(source);
    assert!(had_error);
    let found: Vec<(usize, String)> =
        diagnostics.iter().map(|d| (d.line, d.message.clone())).collect();
    assert_eq!(
        found,
        vec![
            (1, "Expect expression.".to_string()),
            (3, "Expect variable name.".to_string()),
            (5, "Expect ')' after expression.".to_string()),
        ]
    );
}

#[test]
fn recovery_stops_before_a_statement_keyword() {
    let (_, chunk, diagnostics) = compile("print 1 2 3 print 4;");
    assert_eq!(diagnostics.len(), 1);
    assert_eq!(diagnostics[0].message, "Expect ';' after value.");
    assert_eq!(diagnostics[0].place, Place::Lexeme("2".to_string()));
    let tail = &chunk.code[chunk.code.len() - 4..];
    assert_eq!(tail[2], PRINT);
    assert_eq!(tail[3], RETURN);
}

#[test]
fn two_hundred_and_fifty_six_constants_fit() {
    let mut source = String::new();
    for index in 0..256 {
        source.push_str(&format!("{};", index));
    }
    let (had_error, chunk, diagnostics) = compile(&source);
    assert!(!had_error, "{:?}", diagnostics);
    assert_eq!(chunk.constants.len(), 256);
    assert_eq!(chunk.code.len(), 256 * 3 + 1);
    assert_eq!(chunk.code[255 * 3], CONSTANT);
    assert_eq!(chunk.code[255 * 3 + 1], 255);
    assert_eq!(chunk.get_constant(255), number(255.0));
}

#[test]
fn the_257th_constant_is_a_compile_error() {
    let mut source = String::new();
    for index in 0..257 {
        source.push_str(&format!("{};\n", index));
    }
    let (had_error, chunk, diagnostics) = compile(&source);
    assert!(had_error);
    assert_eq!(
        diagnostics,
        vec![Diagnostic {
            line: 257,
            place: Place::Lexeme("256".to_string()),
            message: "Too many constants in one chunk.".to_string(),
        }]
    );
    assert_eq!(chunk.constants.len(), 256);
    for index in 0..256 {
        assert_eq!(chunk.get_constant(index as u8), number(index as f64));
    }
    let mut offset = 0;
    while offset < chunk.code.len() {
        let op = OpCode::from_byte(chunk.code[offset]).unwrap();
        if op.takes_operand() {
            assert!((chunk.code[offset + 1] as usize) < chunk.constants.len());
            offset += 2;
        } else {
            offset += 1;
        }
    }
    assert_eq!(offset, chunk.code.len());
}

#[test]
fn variable_names_count_as_constants() {
    let mut source = String::new();
    for index in 0..129 {
        source.push_str(&format!("var v{} = {};\n", index, index));
    }
    let (had_error, chunk, diagnostics) = compile(&source);
    assert!(had_error);
    assert_eq!(chunk.constants.len(), 256);
    assert_eq!(diagnostics[0].message, "Too many constants in one chunk.");
    assert_eq!(diagnostics[0].line, 129);
}

#[test]
fn compiler_appends_to_the_chunk_it_is_given() {
    let mut chunk = Chunk::new();
    chunk.add_constant(Value::Nil);
    chunk.write_opcode(OpCode::OpNil, 9);
    let mut compiler = Compiler::new(chunk);
    let had_error = compiler.compile("print 4;".to_string(), vec![4.0f64.to_bits()]);
    assert!(!had_error);
    let chunk = compiler.into_chunk();
    assert_eq!(chunk.code, vec![NIL, CONSTANT, 1, PRINT, RETURN]);
    assert_eq!(chunk.lines, vec![9, 1, 1, 1, 1]);
    assert_eq!(chunk.constants.values, vec![Value::Nil, number(4.0)]);
}

#[test]
fn advance_moves_the_token_buffer() {
    let mut compiler = Compiler::new(Chunk::new());
    compiler.advance();
    assert!(!compiler.had_error());
    assert!(compiler.diagnostics().is_empty());
    assert!(compiler.chunk().code.is_empty());
}

#[test]
fn precedence_levels_are_ordered() {
    let levels = vec![
        Precedence::Lowest,
        Precedence::Assignment,
        Precedence::Or,
        Precedence::And,
        Precedence::Equality,
        Precedence::Comparison,
        Precedence::Term,
        Precedence::Factor,
        Precedence::Unary,
        Precedence::Call,
        Precedence::Primary,
    ];
    for (rank, level) in levels.iter().enumerate() {
        assert_eq!(level.level(), rank);
        assert_eq!(Precedence::from_level(rank), Some(*level));
        if rank < 10 {
            assert_eq!(level.next(), levels[rank + 1]);
        }
        if rank > 0 {
            assert_eq!(level.previous(), levels[rank - 1]);
        }
        for (other_rank, other) in levels.iter().enumerate() {
            assert_eq!(level.at_most(*other), rank <= other_rank);
        }
    }
    assert_eq!(Precedence::from_level(11), None);
}

#[test]
fn parse_rules() {
    assert_eq!(
        get_rule(TokenType::Minus),
        ParseRule {
            prefix: Some(ParseFn::Unary),
            infix: Some(ParseFn::Binary),
            precedence: Precedence::Term,
        }
    );
    assert_eq!(
        get_rule(TokenType::LeftParen),
        ParseRule { prefix: Some(ParseFn::Grouping), infix: None, precedence: Precedence::Lowest }
    );
    assert_eq!(
        get_rule(TokenType::Star),
        ParseRule { prefix: None, infix: Some(ParseFn::Binary), precedence: Precedence::Factor }
    );
    assert_eq!(
        get_rule(TokenType::EqualEqual),
        ParseRule { prefix: None, infix: Some(ParseFn::Binary), precedence: Precedence::Equality }
    );
    assert_eq!(
        get_rule(TokenType::LessEqual),
        ParseRule {
            prefix: None,
            infix: Some(ParseFn::Binary),
            precedence: Precedence::Comparison,
        }
    );
    assert_eq!(
        get_rule(TokenType::Bang),
        ParseRule { prefix: Some(ParseFn::Unary), infix: None, precedence: Precedence::Lowest }
    );
    assert_eq!(get_rule(TokenType::Identifier).prefix, Some(ParseFn::Variable));
    assert_eq!(get_rule(TokenType::String).prefix, Some(ParseFn::String));
    assert_eq!(get_rule(TokenType::Number).prefix, Some(ParseFn::Number));
    assert_eq!(get_rule(TokenType::Nil).prefix, Some(ParseFn::Literal));
    for kind in [
        TokenType::EOF,
        TokenType::Semicolon,
        TokenType::Equal,
        TokenType::And,
        TokenType::Or,
        TokenType::Print,
        TokenType::Dot,
        TokenType::Error,
    ] {
        assert_eq!(
            get_rule(kind),
            ParseRule { prefix: None, infix: None, precedence: Precedence::Lowest }
        );
    }
}

#[test]
fn default_parser_has_seen_nothing() {
    let parser = Parser::default();
    assert_eq!(parser.current.token_type, TokenType::Undefined);
    assert_eq!(parser.previous.token_type, TokenType::Undefined);
    assert_eq!(parser.current_number, None);
    assert_eq!(parser.previous_number, None);
    assert!(!parser.had_error);
    assert!(!parser.panic_mode);
}

fn nested(depth: usize) -> String {
    format!("print {}1{};", "(".repeat(depth), ")".repeat(depth))
}

#[test]
fn nesting_up_to_the_limit_compiles() {
    let (had_error, chunk, diagnostics) = compile(&nested(199));
    assert!(!had_error, "{:?}", diagnostics);
    assert_eq!(chunk.code, vec![CONSTANT, 0, PRINT, RETURN]);
    let negations = format!("print {}1;", "-".repeat(199));
    let (had_error, chunk, _) = compile(&negations);
    assert!(!had_error);
    assert_eq!(chunk.code.len(), 2 + 199 + 2);
}

#[test]
fn nesting_beyond_the_limit_is_a_compile_error() {
    let (had_error, _, diagnostics) = compile(&nested(200));
    assert!(had_error);
    assert_eq!(diagnostics.len(), 1);
    assert_eq!(diagnostics[0].message, "Expression nested too deeply.");
    assert_eq!(diagnostics[0].place, Place::Lexeme("1".to_string()));
    assert_eq!(messages(&format!("print {}1;", "!".repeat(200))), vec![
        "Expression nested too deeply."
    ]);
}

#[test]
fn very_deep_nesting_is_reported_and_the_rest_is_compiled() {
    let source = format!("{}\nprint 2;", nested(100_000));
    let (had_error, chunk, diagnostics) = compile(&source);
    assert!(had_error);
    assert_eq!(diagnostics.len(), 1);
    assert_eq!(diagnostics[0].message, "Expression nested too deeply.");
    assert_eq!(diagnostics[0].line, 1);
    let tail = &chunk.code[chunk.code.len() - 4..];
    assert_eq!(tail[0], CONSTANT);
    assert_eq!(tail[2], PRINT);
    assert_eq!(tail[3], RETURN);
}

#[test]
fn long_chains_of_operators_are_not_nested() {
    let mut source = String::from("print 0");
    for _ in 0..200 {
        source.push_str(" + 1");
    }
    source.push(';');
    let mut compiler = Compiler::new(Chunk::new());
    let had_error = compiler.compile(source, vec![0; 201]);
    assert!(!had_error);
    assert_eq!(compiler.chunk().code.len(), 2 + 200 * 3 + 2);
}

#[test]
fn recovery_comes_before_the_next_declaration() {
    assert_eq!(messages("@ print ;"), vec!["Unexpected character.", "Expect expression."]);
    assert_eq!(messages("@ print 1;"), vec!["Unexpected character."]);
}

#[test]
fn tokens_skipped_in_recovery_are_not_reported() {
    assert_eq!(
        messages("print 1 2 @ # ; print ;"),
        vec!["Expect ';' after value.", "Expect expression."]
    );
}

#[test]
fn recovery_at_the_end_of_the_text_reports_nothing_more() {
    assert_eq!(messages("print (1 2"), vec!["Expect ')' after expression."]);
    assert_eq!(messages("print 1 2 3"), vec!["Expect ';' after value."]);
    assert_eq!(messages("var x = ; 1 2"), vec!["Expect expression.", "Expect ; after Expression"]);
}
