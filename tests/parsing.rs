use maiden::expression::evaluate;
use maiden::lexer::{line_tokens, lines};
use maiden::parser::parse;
use maiden::program::{Command, CommandLine, Expression, ParseError, Program};
use maiden::symbols::Symbol;

fn lines_tokens_check(input: &str, tokens: Vec<Symbol>) {
    let (rest, mut raw_lines) = lines(input).unwrap();
    assert_eq!(rest.text, "");
    assert_eq!(raw_lines.len(), 1, "{:?}", raw_lines);
    assert_eq!(raw_lines.remove(0).into_iter().map(|t| t.symbol).collect::<Vec<_>>(), tokens);
}

#[test]
fn multi_word_quote_parse() {
    let (rest, tokens) = line_tokens("say \"shout let it all out\"").unwrap();
    assert_eq!("", rest);
    assert_eq!(
        vec![Symbol::Say, Symbol::String("shout let it all out".to_string())],
        tokens.into_iter().map(|t| t.symbol).collect::<Vec<_>>()
    );
}

#[test]
fn check_evaluate() {
    assert_eq!(
        evaluate(
            &Symbol::Words(vec!["a".to_string(), "lovestruck".to_string(), "ladykiller".to_string()]),
            0
        )
        .unwrap(),
        Expression::Integer(100)
    );
    assert_eq!(evaluate(&Symbol::Words(vec!["nothing".to_string()]), 0).unwrap(), Expression::Integer(0));
}

fn midnight_call(last: &str) -> Expression {
    Expression::Call(
        "Midnight".to_string(),
        vec![Expression::Variable("my world".to_string()), Expression::Variable(last.to_string())],
    )
}

#[test]
fn check_full_expression_parse() {
    let expression = Expression::And(
        Box::new(Expression::Is(Box::new(midnight_call("Fire")), Box::new(Expression::Integer(0)))),
        Box::new(Expression::Is(Box::new(midnight_call("Hate")), Box::new(Expression::Integer(0)))),
    );
    let commands = vec![
        CommandLine { cmd: Command::If { expression, if_end: Some(1) }, line: 1 },
        CommandLine { cmd: Command::EndIf, line: 2 },
    ];
    let functions = Vec::new();
    assert_eq!(
        parse("If Midnight taking my world, Fire is nothing and Midnight taking my world, Hate is nothing\n")
            .unwrap(),
        Program { commands, functions }
    );
}

#[test]
fn check_expression_parse() {
    lines_tokens_check(
        "If Midnight taking my world, Fire is nothing and Midnight taking my world, Hate is nothing",
        vec![
            Symbol::If,
            Symbol::Taking {
                target: "Midnight".to_string(),
                args: vec!["my world".to_string(), "Fire".to_string()],
            },
            Symbol::Is,
            Symbol::Integer("0".to_string()),
            Symbol::And,
            Symbol::Taking {
                target: "Midnight".to_string(),
                args: vec!["my world".to_string(), "Hate".to_string()],
            },
            Symbol::Is,
            Symbol::Integer("0".to_string()),
        ],
    );
}

#[test]
fn comment_parsing() {
    lines_tokens_check("(foo bar baz)", vec![Symbol::Comment]);
}

#[test]
fn apostrophe_parsing() {
    let commands = vec![CommandLine {
        cmd: Command::Assignment { target: "Bar".to_string(), value: Expression::Integer(4) },
        line: 1,
    }];
    let functions = Vec::new();
    assert_eq!(parse("Bar is foo'd").unwrap(), Program { commands, functions });
}

#[test]
fn multi_word_proper_variable() {
    lines_tokens_check(
        "Liftin High takes the spirit and greatness",
        vec![
            Symbol::Variable("Liftin High".to_string()),
            Symbol::Takes,
            Symbol::Variable("the spirit".to_string()),
            Symbol::And,
            Symbol::Words(vec!["greatness".to_string()]),
        ],
    );
}

#[test]
fn not_proper_variable() {
    lines_tokens_check(
        "Until Counter is Limit",
        vec![
            Symbol::Until,
            Symbol::Variable("Counter".to_string()),
            Symbol::Is,
            Symbol::Variable("Limit".to_string()),
        ],
    );
}

#[test]
fn split_nothing() {
    let (rest, mut raw_lines) = lines("If a thought is greater than nothinggggggggg").unwrap();
    assert_eq!(rest.text, "gggggggg");
    assert_eq!(raw_lines.len(), 1, "{:?}", raw_lines);
    assert_eq!(
        raw_lines.remove(0).into_iter().map(|t| t.symbol).collect::<Vec<_>>(),
        vec![
            Symbol::If,
            Symbol::Variable("a thought".to_string()),
            Symbol::GreaterThan,
            Symbol::Integer("0".to_string())
        ]
    );
}

#[test]
fn great_davy() {
    let expression = Expression::Aint(
        Box::new(Expression::Variable("Davy".to_string())),
        Box::new(Expression::Variable("Greatness".to_string())),
    );
    let commands = vec![
        CommandLine { cmd: Command::While { expression, loop_end: Some(1) }, line: 1 },
        CommandLine { cmd: Command::Next { loop_start: 0 }, line: 2 },
    ];
    let functions = Vec::new();
    assert_eq!(parse("While Davy ain't Greatness\n").unwrap(), Program { commands, functions });
    assert_eq!(parse("While Davy ain't Greatness").err().unwrap(), ParseError::UnterminatedBlock(1));
}

#[test]
fn bad_fragment() {
    let err = parse("test is a").err().unwrap();
    if let ParseError::BadIs(symbols, line) = err {
        assert_eq!(
            symbols,
            vec![
                Symbol::Words(vec!["test".to_string()]),
                Symbol::Is,
                Symbol::Words(vec!["a".to_string()])
            ]
        );
        assert_eq!(line, 1);
    } else {
        panic!("{:?}", err);
    }
}

#[test]
fn too_long_int() {
    let err = parse("the loneliest is 340282366920938463463374607431768211455").err().unwrap();
    if let ParseError::ParseIntError(val, line) = err {
        assert_eq!(val, "340282366920938463463374607431768211455");
        assert_eq!(line, 1);
    } else {
        panic!("{:?}", err);
    }
}

#[test]
fn bad_expression() {
    let err = parse("if t is").err().unwrap();
    if let ParseError::UnbalancedExpression(name, line) = err {
        assert_eq!(name, "[Words([\"t\"]), Is]");
        assert_eq!(line, 1);
    } else {
        panic!("{:?}", err);
    }
}

#[test]
fn bad_put() {
    let err = parse("put foo into bar").err().unwrap();
    if let ParseError::BadPut(expression, line) = err {
        assert_eq!(
            expression,
            vec![
                Symbol::Put,
                Symbol::Words(vec!["foo".to_string()]),
                Symbol::Where,
                Symbol::Words(vec!["bar".to_string()])
            ]
        );
        assert_eq!(line, 1);
    } else {
        panic!("{:?}", err);
    }
}
