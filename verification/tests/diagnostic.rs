use func_::diagnostic::{error_item, Anchor, Diagnostic};
use func_::literal::push_escaped;

#[test]
fn error_item_without_source_holds_the_explanation() {
    assert_eq!(error_item(None, "expected identifier"), "compile_error!(\"expected identifier\");");
}

#[test]
fn error_item_with_source_shows_the_source_first() {
    assert_eq!(
        error_item(Some("fn"), "no function name follows"),
        "compile_error!(\"fn\n\nno function name follows\");"
    );
}

#[test]
fn error_item_of_empty_texts() {
    assert_eq!(error_item(None, ""), "compile_error!(\"\");");
    assert_eq!(error_item(Some(""), ""), "compile_error!(\"\n\n\");");
}

#[test]
fn missing_function_name_points_at_the_keyword() {
    let diagnostic = Diagnostic::MissingFunctionName { keyword: 3 };
    assert_eq!(diagnostic.anchor(), Anchor::Token(3));
    assert_eq!(diagnostic.message(), "no function name follows");
    assert_eq!(
        diagnostic.construct(Some("fn")),
        "compile_error!(\"fn\n\nno function name follows\");"
    );
    assert_eq!(diagnostic.construct(None), "compile_error!(\"no function name follows\");");
}

#[test]
fn unexpected_token_points_at_the_token() {
    let diagnostic = Diagnostic::UnexpectedToken { index: 7 };
    assert_eq!(diagnostic.anchor(), Anchor::Token(7));
    assert_eq!(diagnostic.message(), "expected identifier");
    assert_eq!(diagnostic.construct(Some("<")), "compile_error!(\"<\n\nexpected identifier\");");
}

#[test]
fn no_function_found_points_at_the_call_site() {
    let diagnostic = Diagnostic::NoFunctionFound;
    assert_eq!(diagnostic.anchor(), Anchor::CallSite);
    assert_eq!(diagnostic.message(), "No function name found, please write valid code");
    assert_eq!(
        diagnostic.construct(None),
        "compile_error!(\"No function name found, please write valid code\");"
    );
}

#[test]
fn codegen_invalid_shows_the_error_and_the_text() {
    let diagnostic = Diagnostic::CodegenInvalid {
        error: "unexpected closing delimiter".to_string(),
        output: "fn f() }".to_string(),
    };
    assert_eq!(diagnostic.anchor(), Anchor::CallSite);
    assert_eq!(
        diagnostic.message(),
        "codegen generated unexpectedly invalid code:\nunexpected closing delimiter\n-----Output:\nfn f() }"
    );
    assert_eq!(
        diagnostic.construct(Some("#[_func_]")),
        "compile_error!(\"#[_func_]\n\ncodegen generated unexpectedly invalid code:\nunexpected closing delimiter\n-----Output:\nfn f() }\");"
    );
}

fn unescaped(body: &str) -> String {
    let mut value = String::new();
    let mut chars = body.chars();
    while let Some(c) = chars.next() {
        if c == '\\' {
            value.push(chars.next().unwrap());
        } else {
            assert_ne!(c, '"');
            value.push(c);
        }
    }
    value
}

fn literal_body(item: &str) -> &str {
    item.strip_prefix("compile_error!(\"").unwrap().strip_suffix("\");").unwrap()
}

#[test]
fn push_escaped_puts_a_backslash_before_quotes_and_backslashes() {
    let mut output = String::from(">");
    push_escaped(&mut output, "plain text\n");
    assert_eq!(output, ">plain text\n");
    push_escaped(&mut output, "\"");
    assert_eq!(output, ">plain text\n\\\"");
    push_escaped(&mut output, "\\");
    assert_eq!(output, ">plain text\n\\\"\\\\");
    push_escaped(&mut output, "");
    assert_eq!(output, ">plain text\n\\\"\\\\");
    push_escaped(&mut output, "a\"b\\c\\\"d\u{e9}\"");
    assert_eq!(output, ">plain text\n\\\"\\\\a\\\"b\\\\c\\\\\\\"d\u{e9}\\\"");
}

#[test]
fn error_item_of_a_quote_is_one_literal() {
    assert_eq!(error_item(None, "\""), "compile_error!(\"\\\"\");");
    assert_eq!(error_item(Some("\\"), "\""), "compile_error!(\"\\\\\n\n\\\"\");");
}

#[test]
fn error_item_reads_back_as_what_is_shown() {
    let texts = ["", "plain", "\"", "\\", "\\\"", "\"\\", "say \"hi\"", "a\\nb", "'\"'", "\u{e9}\"\u{1f600}"];
    for source in texts {
        for error in texts {
            let item = error_item(Some(source), error);
            assert_eq!(unescaped(literal_body(&item)), format!("{source}\n\n{error}"));
            let item = error_item(None, error);
            assert_eq!(unescaped(literal_body(&item)), error);
        }
    }
}

#[test]
fn refused_text_is_shown_whole_in_one_literal() {
    let output = "fn f () {\n    const __func__: &str = \"f\";\n'\\''\n}";
    let diagnostic = Diagnostic::CodegenInvalid {
        error: "unexpected \"token\"".to_string(),
        output: output.to_string(),
    };
    let item = diagnostic.construct(None);
    assert_eq!(
        item,
        "compile_error!(\"codegen generated unexpectedly invalid code:\nunexpected \\\"token\\\"\n-----Output:\nfn f () {\n    const __func__: &str = \\\"f\\\";\n'\\\\''\n}\");"
    );
    assert_eq!(unescaped(literal_body(&item)), diagnostic.message());
    assert!(diagnostic.message().contains(output));
}
