use func_::diagnostic::{Anchor, Diagnostic};
use func_::rewrite::rewrite;
use func_::token::{Delimiter, Token};

fn name(text: &str) -> Token {
    Token::Ident(text.to_string())
}

fn symbol(text: &str) -> Token {
    Token::Punct(text.to_string())
}

fn round(stream: &str) -> Token {
    Token::Group {
        delimiter: Delimiter::Parenthesis,
        text: format!("({stream})"),
        stream: stream.to_string(),
    }
}

fn square(stream: &str) -> Token {
    Token::Group {
        delimiter: Delimiter::Bracket,
        text: format!("[{stream}]"),
        stream: stream.to_string(),
    }
}

fn curly(stream: &str) -> Token {
    Token::Group {
        delimiter: Delimiter::Brace,
        text: format!("{{ {stream} }}"),
        stream: stream.to_string(),
    }
}

fn spaced(tokens: &[Token]) -> String {
    let mut text = String::new();
    for token in tokens {
        text.push_str(token.text());
        text.push(' ');
    }
    text
}

fn qualifier_lists() -> Vec<Vec<Token>> {
    vec![
        vec![],
        vec![name("pub")],
        vec![name("const")],
        vec![name("async")],
        vec![name("pub"), round("crate"), name("const"), name("unsafe")],
        vec![symbol("#"), square("inline"), symbol("#"), square("must_use"), name("pub"), name("async")],
        vec![name("pub"), name("default"), name("unsafe"), name("extern"), Token::Literal("\"C\"".to_string())],
    ]
}

fn signatures() -> Vec<Vec<Token>> {
    vec![
        vec![],
        vec![round("")],
        vec![symbol("<"), name("T"), symbol(">"), round("")],
        vec![
            symbol("<"),
            symbol("'a"),
            symbol(","),
            name("T"),
            symbol(":"),
            name("Copy"),
            symbol(","),
            name("const"),
            name("N"),
            symbol(":"),
            name("usize"),
            symbol(">"),
            round("items : & 'a [T ; N]"),
            symbol("->"),
            name("T"),
            name("where"),
            name("T"),
            symbol(":"),
            name("Default"),
        ],
    ]
}

fn definition(qualifiers: &[Token], function: &str, signature: &[Token], stream: &str, rest: &[Token]) -> Vec<Token> {
    let mut tokens: Vec<Token> = qualifiers.to_vec();
    tokens.push(name("fn"));
    tokens.push(name(function));
    tokens.extend_from_slice(signature);
    tokens.push(curly(stream));
    tokens.extend_from_slice(rest);
    tokens
}

#[test]
fn declared_value_is_the_identifier_after_the_keyword() {
    for qualifiers in qualifier_lists() {
        for signature in signatures() {
            for function in ["f", "my_func", "my_generic_func", "r#type", "_0"] {
                let tokens = definition(&qualifiers, function, &signature, "work () ;", &[]);
                let text = rewrite(&tokens).unwrap();
                let declaration = format!("    const __func__: &str = \"{function}\";\n");
                assert_eq!(text.matches("const __func__").count(), 1);
                assert!(text.contains(&declaration));
            }
        }
    }
}

#[test]
fn text_without_the_declaration_is_the_copy() {
    let rests = [vec![], vec![symbol(";")], vec![curly("more"), name("x"), name("y")]];
    for qualifiers in qualifier_lists() {
        for signature in signatures() {
            for rest in &rests {
                let stream = "let x = { 1 } ; call (x) ;";
                let tokens = definition(&qualifiers, "kept", &signature, stream, rest);
                let text = rewrite(&tokens).unwrap();
                let head = format!("{}fn kept {}", spaced(&qualifiers), spaced(&signature));
                let declaration = "    const __func__: &str = \"kept\";\n";
                let at: usize = head.len() + 2;
                assert_eq!(&text[at..at + declaration.len()], declaration);
                let mut without = text.clone();
                without.replace_range(at..at + declaration.len(), "");
                assert_eq!(without, format!("{head}{{\n{stream}\n}}{}", spaced(rest)));
                assert_eq!(&text[..head.len()], head);
            }
        }
    }
}

#[test]
fn declaration_stands_first_in_the_body() {
    for qualifiers in qualifier_lists() {
        for signature in signatures() {
            let stream = "{ inner (__func__) } ; | | __func__ ; mac! (__func__)";
            let tokens = definition(&qualifiers, "first", &signature, stream, &[]);
            let text = rewrite(&tokens).unwrap();
            let opening = format!("{}fn first {}{{\n", spaced(&qualifiers), spaced(&signature));
            assert!(text.starts_with(&opening));
            assert_eq!(
                &text[opening.len()..],
                format!("    const __func__: &str = \"first\";\n{stream}\n}}")
            );
        }
    }
}

#[test]
fn qualifiers_are_written_in_front_and_change_nothing_else() {
    let items = [
        vec![name("fn"), name("f"), round(""), curly("x")],
        vec![name("fn"), name("g"), symbol("<"), name("T"), symbol(">"), round(""), symbol(";")],
        vec![name("fn"), name("h"), curly("a"), curly("b"), symbol(";")],
    ];
    for qualifiers in qualifier_lists() {
        for item in &items {
            let mut tokens = qualifiers.clone();
            tokens.extend_from_slice(item);
            let alone = rewrite(item).unwrap();
            assert_eq!(rewrite(&tokens), Ok(format!("{}{alone}", spaced(&qualifiers))));
        }
    }
}

#[test]
fn qualifiers_move_a_diagnostic_with_its_token() {
    for qualifiers in qualifier_lists() {
        let by: usize = qualifiers.len();

        let mut tokens = qualifiers.clone();
        tokens.push(name("fn"));
        assert_eq!(rewrite(&tokens), Err(Diagnostic::MissingFunctionName { keyword: by }));

        tokens.push(round(""));
        assert_eq!(rewrite(&tokens), Err(Diagnostic::UnexpectedToken { index: by + 1 }));

        assert_eq!(rewrite(&qualifiers), Err(Diagnostic::NoFunctionFound));
    }
}

#[test]
fn keyword_with_nothing_after_it_misses_the_name() {
    for qualifiers in qualifier_lists() {
        let mut tokens = qualifiers.clone();
        tokens.push(name("fn"));
        let diagnostic = rewrite(&tokens).unwrap_err();
        assert_eq!(diagnostic, Diagnostic::MissingFunctionName { keyword: qualifiers.len() });
        assert_eq!(diagnostic.anchor(), Anchor::Token(qualifiers.len()));
        assert!(diagnostic.message().contains("no function name follows"));
        let item = diagnostic.construct(Some("fn"));
        assert!(item.starts_with("compile_error!(\""));
        assert!(item.contains("no function name follows"));
        assert!(!item.contains("__func__"));
    }
}

#[test]
fn anything_but_an_identifier_after_the_keyword_is_unexpected() {
    let wrong = [
        symbol("<"),
        symbol("!"),
        symbol(";"),
        Token::Literal("1".to_string()),
        Token::Literal("\"f\"".to_string()),
        round(""),
        square("x"),
        curly("x"),
        Token::Group { delimiter: Delimiter::Invisible, text: "f".to_string(), stream: "f".to_string() },
    ];
    for qualifiers in qualifier_lists() {
        for token in &wrong {
            let mut tokens = qualifiers.clone();
            tokens.push(name("fn"));
            tokens.push(token.clone());
            tokens.push(name("f"));
            tokens.push(round(""));
            tokens.push(curly("x"));
            let diagnostic = rewrite(&tokens).unwrap_err();
            assert_eq!(diagnostic, Diagnostic::UnexpectedToken { index: qualifiers.len() + 1 });
            assert_eq!(diagnostic.anchor(), Anchor::Token(qualifiers.len() + 1));
            assert!(diagnostic.message().contains("expected identifier"));
            let shown = token.text().replace('\\', "\\\\").replace('"', "\\\"");
            let item = diagnostic.construct(Some(token.text()));
            assert_eq!(item, format!("compile_error!(\"{shown}\n\nexpected identifier\");"));
        }
    }
}

#[test]
fn text_is_given_exactly_when_an_identifier_follows_the_first_keyword() {
    let cases = [
        (vec![], false),
        (vec![name("f")], false),
        (vec![name("fn")], false),
        (vec![name("fn"), symbol("f")], false),
        (vec![name("fn"), name("f")], true),
        (vec![name("fn"), symbol("!"), name("fn"), name("f")], false),
        (vec![curly("fn f"), name("fn"), name("f")], true),
        (vec![name("fn"), name("f"), curly("")], true),
    ];
    for (tokens, given) in cases {
        assert_eq!(rewrite(&tokens).is_ok(), given);
    }
}

#[test]
fn tokens_outside_the_body_are_all_copied_alike() {
    let rests = [vec![], vec![symbol(";")], vec![curly("more"), name("x"), name("y")]];
    for qualifiers in qualifier_lists() {
        for signature in signatures() {
            for rest in &rests {
                let tokens = definition(&qualifiers, "alike", &signature, "s ;", rest);
                let at: usize = qualifiers.len() + 2 + signature.len();
                let expected = format!(
                    "{}{{\n    const __func__: &str = \"alike\";\ns ;\n}}{}",
                    spaced(&tokens[..at]),
                    spaced(rest)
                );
                assert_eq!(rewrite(&tokens), Ok(expected));

                let mut declared: Vec<Token> = tokens[..at].to_vec();
                declared.extend_from_slice(&[symbol(";"), name("next")]);
                assert_eq!(rewrite(&declared), Ok(spaced(&declared)));
            }
        }
    }
}
