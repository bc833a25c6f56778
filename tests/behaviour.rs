use maiden::assembler::compact_words;
use maiden::expression::evaluate;
use maiden::parser::parse;
use maiden::program::{Command, CommandLine, Expression, Function, ParseError, Program};
use maiden::symbols::{Symbol, Token};

fn var(name: &str) -> Expression {
    Expression::Variable(name.to_string())
}

fn num(n: i128) -> Expression {
    Expression::Integer(n)
}

fn boxed(e: Expression) -> Box<Expression> {
    Box::new(e)
}

#[test]
fn blank_line_closes_if() {
    let program = parse("If a thought is nothing\nsay a thought\n\nsay a thought").unwrap();
    let expression = Expression::Is(boxed(var("a thought")), boxed(num(0)));
    assert_eq!(
        program.commands,
        vec![
            CommandLine { cmd: Command::If { expression, if_end: Some(2) }, line: 1 },
            CommandLine { cmd: Command::Say { value: var("a thought") }, line: 2 },
            CommandLine { cmd: Command::EndIf, line: 3 },
            CommandLine { cmd: Command::Say { value: var("a thought") }, line: 4 },
        ]
    );
}

#[test]
fn blank_line_closes_loop() {
    let program = parse("While my heart is nothing\nbuild my heart up\n").unwrap();
    let expression = Expression::Is(boxed(var("my heart")), boxed(num(0)));
    assert_eq!(
        program.commands,
        vec![
            CommandLine { cmd: Command::While { expression, loop_end: Some(2) }, line: 1 },
            CommandLine { cmd: Command::Increment { target: "my heart".to_string() }, line: 2 },
            CommandLine { cmd: Command::Next { loop_start: 0 }, line: 3 },
        ]
    );
}

#[test]
fn comment_closes_if_on_its_own_line() {
    let program = parse("If a thought is nothing\nsay a thought\n(done)\n").unwrap();
    assert_eq!(program.commands.len(), 3);
    assert_eq!(program.commands[2], CommandLine { cmd: Command::EndIf, line: 3 });
    if let Command::If { if_end, .. } = &program.commands[0].cmd {
        assert_eq!(*if_end, Some(2));
    } else {
        panic!("{:?}", program.commands[0]);
    }
}

#[test]
fn if_closes_before_loop() {
    let program = parse("Until my heart is nothing\nIf my heart is nothing\nknock my heart down\n\n\n").unwrap();
    let kinds: Vec<String> = program.commands.iter().map(|c| format!("{:?}", c.cmd)).collect();
    assert_eq!(program.commands.len(), 5, "{:?}", kinds);
    assert_eq!(program.commands[3].cmd, Command::EndIf);
    assert_eq!(program.commands[4].cmd, Command::Next { loop_start: 0 });
    if let Command::Until { loop_end, .. } = &program.commands[0].cmd {
        assert_eq!(*loop_end, Some(4));
    } else {
        panic!("{:?}", kinds);
    }
    if let Command::If { if_end, .. } = &program.commands[1].cmd {
        assert_eq!(*if_end, Some(3));
    } else {
        panic!("{:?}", kinds);
    }
}

#[test]
fn function_declaration_and_return() {
    let program = parse("Absolute takes a thought\ngive back a thought\n").unwrap();
    assert_eq!(
        program.commands,
        vec![
            CommandLine {
                cmd: Command::FunctionDeclaration {
                    name: "Absolute".to_string(),
                    args: vec!["a thought".to_string()],
                    func_end: Some(2),
                },
                line: 1,
            },
            CommandLine { cmd: Command::Return { return_value: var("a thought") }, line: 2 },
            CommandLine { cmd: Command::EndFunction, line: 3 },
        ]
    );
    assert_eq!(
        program.functions,
        vec![("Absolute".to_string(), Function { location: 0, args: vec!["a thought".to_string()] })]
    );
}

#[test]
fn later_declaration_replaces_earlier() {
    let program = parse("Foo takes Bar\n\nFoo takes Baz and my heart\n").unwrap();
    assert_eq!(
        program.functions,
        vec![(
            "Foo".to_string(),
            Function { location: 2, args: vec!["Baz".to_string(), "my heart".to_string()] }
        )]
    );
}

#[test]
fn continue_jumps_to_loop_start() {
    let program = parse("While Davy ain't Greatness\ntake it to the top\n").unwrap();
    assert_eq!(program.commands[1], CommandLine { cmd: Command::Continue { loop_start: 0 }, line: 2 });
    assert_eq!(program.commands[2], CommandLine { cmd: Command::Next { loop_start: 0 }, line: 3 });
}

#[test]
fn call_statement() {
    let program = parse("Midnight taking my world, Fire").unwrap();
    assert_eq!(
        program.commands,
        vec![CommandLine {
            cmd: Command::Call { name: "Midnight".to_string(), args: vec![var("my world"), var("Fire")] },
            line: 1,
        }]
    );
}

#[test]
fn put_into_assigns() {
    let program = parse("put 5 into my heart").unwrap();
    assert_eq!(
        program.commands,
        vec![CommandLine {
            cmd: Command::Assignment { target: "my heart".to_string(), value: num(5) },
            line: 1,
        }]
    );
}

#[test]
fn multiplication_binds_tighter_than_addition() {
    let program = parse("say 2 with 3 of 4").unwrap();
    let value = Expression::Add(boxed(num(2)), boxed(Expression::Times(boxed(num(3)), boxed(num(4)))));
    assert_eq!(program.commands, vec![CommandLine { cmd: Command::Say { value }, line: 1 }]);
}

#[test]
fn subtraction_is_left_associative() {
    let program = parse("say 1 minus 2 minus 3").unwrap();
    let value = Expression::Subtract(
        boxed(Expression::Subtract(boxed(num(1)), boxed(num(2)))),
        boxed(num(3)),
    );
    assert_eq!(program.commands, vec![CommandLine { cmd: Command::Say { value }, line: 1 }]);
}

#[test]
fn comparison_idioms() {
    let program = parse("If my heart is as high as nothing\n").unwrap();
    let expression = Expression::GreaterThanOrEqual(boxed(var("my heart")), boxed(num(0)));
    assert_eq!(program.commands[0], CommandLine { cmd: Command::If { expression, if_end: Some(1) }, line: 1 });
    let program = parse("If my heart is weaker than Tommy\n").unwrap();
    let expression = Expression::LessThan(boxed(var("my heart")), boxed(var("Tommy")));
    assert_eq!(program.commands[0], CommandLine { cmd: Command::If { expression, if_end: Some(1) }, line: 1 });
}

#[test]
fn string_literal_is_said() {
    let program = parse("shout \"hello world\"").unwrap();
    assert_eq!(
        program.commands,
        vec![CommandLine { cmd: Command::Say { value: Expression::String("hello world".to_string()) }, line: 1 }]
    );
}

#[test]
fn possessive_reads_as_is() {
    let program = parse("Tommy's nothing").unwrap();
    assert_eq!(
        program.commands,
        vec![CommandLine { cmd: Command::Assignment { target: "Tommy".to_string(), value: num(0) }, line: 1 }]
    );
}

#[test]
fn poetic_literal_from_word_lengths() {
    let program = parse("Tommy is a lean mean wrecking machine").unwrap();
    assert_eq!(
        program.commands,
        vec![CommandLine { cmd: Command::Assignment { target: "Tommy".to_string(), value: num(14487) }, line: 1 }]
    );
}

#[test]
fn single_word_value() {
    assert_eq!(evaluate(&Symbol::Words(vec!["hello".to_string()]), 3).unwrap(), num(5));
}

#[test]
fn largest_numeral_fits() {
    let program = parse("the loneliest is 170141183460469231731687303715884105727").unwrap();
    assert_eq!(
        program.commands,
        vec![CommandLine {
            cmd: Command::Assignment { target: "the loneliest".to_string(), value: num(i128::MAX) },
            line: 1,
        }]
    );
}

#[test]
fn poetic_literal_too_long() {
    let words = vec!["a"; 40].join(" ");
    let err = parse(&format!("Tommy is {}", words)).err().unwrap();
    assert_eq!(err, ParseError::ParseIntError(words, 1));
}

#[test]
fn lone_and_has_no_symbols() {
    assert_eq!(parse("and").err().unwrap(), ParseError::NoSymbols(1));
}

#[test]
fn bad_function_declaration() {
    let err = parse("Foo takes 5").err().unwrap();
    assert_eq!(
        err,
        ParseError::BadFunctionDeclaration(
            vec![Symbol::Variable("Foo".to_string()), Symbol::Takes, Symbol::Integer("5".to_string())],
            1
        )
    );
}

#[test]
fn bad_command_sequence() {
    let err = parse("build my heart").err().unwrap();
    assert_eq!(
        err,
        ParseError::BadCommandSequence(vec![Symbol::Build, Symbol::Variable("my heart".to_string())], 1)
    );
}

#[test]
fn next_without_loop() {
    assert_eq!(parse("end").err().unwrap(), ParseError::BadCommandSequence(vec![Symbol::Next], 1));
}

#[test]
fn keyword_as_operand() {
    let err = parse("say if").err().unwrap();
    assert_eq!(err, ParseError::Unimplemented("Single symbol to expression: If".to_string(), 1));
}

#[test]
fn trailing_text_is_unparsed() {
    assert_eq!(parse("Tommy is 5 !").err().unwrap(), ParseError::UnparsedText(" !".to_string(), 1));
}

#[test]
fn empty_text_is_unparsed() {
    assert_eq!(parse("").err().unwrap(), ParseError::UnparsedText("".to_string(), 1));
}

#[test]
fn compaction_merges_adjacent_words() {
    let w = |s: &str| Token { line: 1, symbol: Symbol::Words(vec![s.to_string()]) };
    let merged = compact_words(vec![w("a"), w("b"), Token { line: 1, symbol: Symbol::Is }, w("c")]);
    assert_eq!(
        merged,
        vec![
            Token { line: 1, symbol: Symbol::Words(vec!["a".to_string(), "b".to_string()]) },
            Token { line: 1, symbol: Symbol::Is },
            Token { line: 1, symbol: Symbol::Words(vec!["c".to_string()]) },
        ]
    );
}

#[test]
fn open_block_at_end_is_an_error() {
    assert_eq!(parse("If a thought is nothing").err().unwrap(), ParseError::UnterminatedBlock(1));
    assert_eq!(
        parse("say 1\nAbsolute takes a thought\ngive back a thought").err().unwrap(),
        ParseError::UnterminatedBlock(2)
    );
}

#[test]
fn stray_operand_is_unbalanced() {
    let err = parse("say Tommy my heart is nothing").err().unwrap();
    assert_eq!(
        err,
        ParseError::UnbalancedExpression(
            "[Variable(\"Tommy\"), Variable(\"my heart\"), Is, Integer(\"0\")]".to_string(),
            1
        )
    );
}

#[test]
fn bare_words_rejoin_to_source() {
    let (rest, mut raw_lines) = maiden::lexer::lines("foo bar baz").unwrap();
    assert_eq!(rest.text, "");
    let merged = compact_words(raw_lines.remove(0));
    assert_eq!(merged.len(), 1);
    if let Symbol::Words(ws) = &merged[0].symbol {
        assert_eq!(ws.join(" "), "foo bar baz");
    } else {
        panic!("{:?}", merged);
    }
}
