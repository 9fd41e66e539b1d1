use std::collections::hash_map::DefaultHasher;
use std::hash::{Hash, Hasher};

use next_error_code::ast::{Expr, Prop};
use next_error_code::extract::extract;
use next_error_code::registry::register;
use next_error_code::rewrite::rewrite;

fn ident(name: &str) -> Expr {
    Expr::Ident(name.to_owned())
}

fn s(text: &str) -> Expr {
    Expr::Str(text.to_owned())
}

fn tpl(quasis: &[&str], exprs: Vec<Expr>) -> Expr {
    Expr::Tpl { quasis: quasis.iter().map(|q| (*q).to_owned()).collect(), exprs }
}

fn bin(left: Expr, right: Expr) -> Expr {
    Expr::Bin { left: Box::new(left), right: Box::new(right) }
}

fn new_expr(callee: &str, args: Vec<Expr>) -> Expr {
    Expr::New { callee: Box::new(ident(callee)), args }
}

fn call(callee: Expr, args: Vec<Expr>) -> Expr {
    Expr::Call { callee: Box::new(callee), args }
}

fn member(obj: Expr, prop: &str) -> Expr {
    Expr::Member { obj: Box::new(obj), prop: prop.to_owned() }
}

/// The wrapper the rewrite is expected to produce for `site` and `code`.
fn wrapped(site: Expr, code: &str) -> Expr {
    Expr::Call {
        callee: Box::new(member(ident("Object"), "assign")),
        args: vec![
            site,
            Expr::Object {
                props: vec![Prop {
                    key: "nextjs_internal_error_code".to_owned(),
                    value: s(code),
                }],
            },
        ],
    }
}

#[test]
fn extract_string_literal() {
    assert_eq!(extract(&s("literal")), "literal");
}

#[test]
fn extract_template_with_dynamic_part() {
    let e = tpl(&["prefix ", " suffix"], vec![ident("x")]);
    assert_eq!(extract(&e), "prefix %s suffix");
}

#[test]
fn extract_concatenation() {
    assert_eq!(extract(&bin(s("a"), s("b"))), "ab");
}

#[test]
fn extract_call_is_placeholder() {
    assert_eq!(extract(&call(ident("someCall"), vec![])), "%s");
}

#[test]
fn extract_nested_template() {
    let inner = tpl(&["x=", ""], vec![ident("x")]);
    let outer = tpl(&["a ", " b"], vec![inner]);
    assert_eq!(extract(&outer), "a x=%s b");
}

#[test]
fn extract_concatenation_of_template_and_call() {
    let e = bin(tpl(&["n=", "!"], vec![member(ident("req"), "id")]), call(ident("f"), vec![]));
    assert_eq!(extract(&e), "n=%s!%s");
}

#[test]
fn extract_template_without_interpolation() {
    assert_eq!(extract(&tpl(&["plain"], vec![])), "plain");
}

#[test]
fn extract_numeric_like_other_is_placeholder() {
    assert_eq!(extract(&Expr::Other), "%s");
}

#[test]
fn extract_empty_template_is_empty() {
    assert_eq!(extract(&tpl(&[], vec![])), "");
}

#[test]
fn extract_concatenation_of_dynamic_parts() {
    assert_eq!(extract(&bin(ident("a"), ident("b"))), "%s%s");
}

#[test]
fn register_accepts_empty_message() {
    let mut h = DefaultHasher::new();
    "".hash(&mut h);
    assert_eq!(register(""), format!("E{}", h.finish()));
}

#[test]
fn register_is_deterministic() {
    let a = register("Failed to fetch user %s: %s");
    let b = register("Failed to fetch user %s: %s");
    assert_eq!(a, b);
}

#[test]
fn register_format_is_e_then_digits() {
    let code = register("some message");
    let mut chars = code.chars();
    assert_eq!(chars.next(), Some('E'));
    let digits: Vec<char> = chars.collect();
    assert!(!digits.is_empty());
    assert!(digits.iter().all(|c| c.is_ascii_digit()));
}

#[test]
fn register_distinct_messages_distinct_codes() {
    let a = register("Failed to fetch user %s: %s");
    let b = register("Request failed: %s");
    assert_ne!(a, b);
}

#[test]
fn register_matches_standard_string_hashing() {
    // The code is `E` followed by the standard hasher's digest of the text,
    // so it can be predicted independently of this crate.
    let mut h = DefaultHasher::new();
    "Failed to fetch user %s: %s".hash(&mut h);
    assert_eq!(register("Failed to fetch user %s: %s"), format!("E{}", h.finish()));
}

#[test]
fn rewrite_end_to_end_fetch_example() {
    // throw new Error(`Failed to fetch user ${userId}: ${response.statusText}`)
    let message = tpl(
        &["Failed to fetch user ", ": ", ""],
        vec![ident("userId"), member(ident("response"), "statusText")],
    );
    let site = new_expr("Error", vec![message]);

    let message_again = tpl(
        &["Failed to fetch user ", ": ", ""],
        vec![ident("userId"), member(ident("response"), "statusText")],
    );
    let site_again = new_expr("Error", vec![message_again]);

    let code = register("Failed to fetch user %s: %s");
    assert_eq!(rewrite(site), wrapped(site_again, &code));
}

#[test]
fn rewrite_second_message_gets_its_own_code() {
    let first = new_expr("Error", vec![tpl(&["Failed to fetch user ", ": ", ""], vec![
        ident("userId"),
        member(ident("response"), "statusText"),
    ])]);
    let second = new_expr("Error", vec![tpl(&["Request failed: ", ""], vec![member(
        ident("err"),
        "message",
    )])]);
    let first_code = register("Failed to fetch user %s: %s");
    let second_code = register("Request failed: %s");
    assert_ne!(first_code, second_code);

    let Expr::Call { args: first_args, .. } = rewrite(first) else {
        panic!("expected a call");
    };
    let Expr::Call { args: second_args, .. } = rewrite(second) else {
        panic!("expected a call");
    };
    assert_eq!(first_args[1], Expr::Object {
        props: vec![Prop {
            key: "nextjs_internal_error_code".to_owned(),
            value: s(&first_code),
        }],
    });
    assert_eq!(second_args[1], Expr::Object {
        props: vec![Prop {
            key: "nextjs_internal_error_code".to_owned(),
            value: s(&second_code),
        }],
    });
}

#[test]
fn rewrite_no_argument_construction_is_untouched() {
    // new Error() is left entirely unmodified
    let e = new_expr("Error", vec![]);
    assert_eq!(rewrite(e), new_expr("Error", vec![]));
}

#[test]
fn rewrite_other_constructor_is_untouched() {
    let e = new_expr("TypeError", vec![s("nope")]);
    assert_eq!(rewrite(e), new_expr("TypeError", vec![s("nope")]));
}

#[test]
fn rewrite_non_site_expressions_are_untouched() {
    assert_eq!(rewrite(s("hello")), s("hello"));
    assert_eq!(rewrite(Expr::Other), Expr::Other);
    let e = call(ident("f"), vec![ident("x")]);
    assert_eq!(rewrite(e), call(ident("f"), vec![ident("x")]));
}

#[test]
fn rewrite_reaches_nested_sites() {
    // f(new Error("boom")) rewrites the nested construction
    let e = call(ident("f"), vec![new_expr("Error", vec![s("boom")])]);
    let code = register("boom");
    let expected = call(ident("f"), vec![wrapped(new_expr("Error", vec![s("boom")]), &code)]);
    assert_eq!(rewrite(e), expected);
}

#[test]
fn rewrite_preserves_trailing_arguments() {
    // new Error(msg, options): only the first argument is inspected, the
    // rest ride along unchanged
    let e = new_expr("Error", vec![s("boom"), ident("options")]);
    let code = register("boom");
    let expected = wrapped(new_expr("Error", vec![s("boom"), ident("options")]), &code);
    assert_eq!(rewrite(e), expected);
}

#[test]
fn rewrite_site_with_dynamic_message_uses_placeholder_text() {
    // new Error(status) has a wholly dynamic message
    let e = new_expr("Error", vec![ident("status")]);
    let code = register("%s");
    let expected = wrapped(new_expr("Error", vec![ident("status")]), &code);
    assert_eq!(rewrite(e), expected);
}
