use func_::text::{push_block, push_token};
use func_::token::{Delimiter, Token};

fn every_kind(text: &str) -> Vec<Token> {
    vec![
        Token::Ident(text.to_string()),
        Token::Punct(text.to_string()),
        Token::Literal(text.to_string()),
        Token::Group {
            delimiter: Delimiter::Parenthesis,
            text: text.to_string(),
            stream: "inner".to_string(),
        },
        Token::Group {
            delimiter: Delimiter::Brace,
            text: text.to_string(),
            stream: "inner".to_string(),
        },
        Token::Group {
            delimiter: Delimiter::Bracket,
            text: text.to_string(),
            stream: "inner".to_string(),
        },
        Token::Group {
            delimiter: Delimiter::Invisible,
            text: text.to_string(),
            stream: "inner".to_string(),
        },
    ]
}

#[test]
fn text_is_the_text_of_every_kind() {
    for token in every_kind("fn") {
        assert_eq!(token.text(), "fn");
    }
    for token in every_kind("") {
        assert_eq!(token.text(), "");
    }
}

#[test]
fn only_the_identifier_fn_is_the_keyword() {
    let found: Vec<bool> = every_kind("fn").iter().map(Token::is_keyword).collect();
    assert_eq!(found, vec![true, false, false, false, false, false, false]);
    for text in ["", "f", "n", "nf", "fn ", " fn", "fnn", "Fn", "FN", "r#fn", "f\u{e9}", "\u{192}n"] {
        assert!(!Token::Ident(text.to_string()).is_keyword());
    }
}

#[test]
fn only_a_group_in_braces_is_a_block() {
    let found: Vec<bool> = every_kind("{}").iter().map(Token::is_block).collect();
    assert_eq!(found, vec![false, false, false, false, true, false, false]);
}

#[test]
fn push_token_appends_text_and_one_space() {
    let mut output = String::from("pub");
    push_token(&mut output, &Token::Punct("(".to_string()));
    assert_eq!(output, "pub( ");
    push_token(&mut output, &Token::Ident("crate".to_string()));
    assert_eq!(output, "pub( crate ");
    push_token(&mut output, &Token::Literal("".to_string()));
    assert_eq!(output, "pub( crate  ");
}

#[test]
fn into_text_gives_the_text_of_every_kind() {
    for token in every_kind("->") {
        assert_eq!(token.into_text(), "->");
    }
}

#[test]
fn kinds_are_told_apart() {
    let idents: Vec<bool> = every_kind("x").iter().map(Token::is_ident).collect();
    assert_eq!(idents, vec![true, false, false, false, false, false, false]);
    let puncts: Vec<bool> = every_kind("x").iter().map(Token::is_punct).collect();
    assert_eq!(puncts, vec![false, true, false, false, false, false, false]);
}

#[test]
fn clone_keeps_every_kind() {
    for token in every_kind("text") {
        assert_eq!(token.clone(), token);
    }
}

#[test]
fn push_block_writes_the_declaration_first() {
    let mut output = String::from("fn name() ");
    push_block(&mut output, "name", "body () ;");
    assert_eq!(output, "fn name() {\n    const __func__: &str = \"name\";\nbody () ;\n}");
}

#[test]
fn push_block_of_an_empty_body() {
    let mut output = String::new();
    push_block(&mut output, "", "");
    assert_eq!(output, "{\n    const __func__: &str = \"\";\n\n}");
}
