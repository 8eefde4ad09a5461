use lambda::attribute::{expand, Expansion, FnArg, ItemFn, Site};
use lambda::source::is_readable;
use lambda::{lambda, try_lambda};
use std::str::FromStr;

/// The tokens of a text, with one space between them.
fn tokens(text: &str) -> String {
    proc_macro2::TokenStream::from_str(text).unwrap().to_string()
}

fn rejected(item: &str, message: &str, site: Site) {
    let expansion = lambda("", item);
    assert_eq!(expansion.tokens, format!("compile_error!(\"{}\");", message));
    assert_eq!(expansion.site, site);
}

const ASYNC: &str = "the async keyword is missing from the function declaration";
const MAIN: &str = "only the main function can be tagged with #[lambda::main]";
const COUNT: &str = "fn main can only take 2 arguments: The event and the Lambda context";
const FORM: &str = "fn main should take a fully formed argument";

#[test]
fn tests() {
    let expansion = lambda(
        "",
        "#[runtime::main]
        async fn main(s: String) -> Result<String, Error> {
            dbg!(&s);
            Ok(s)
        }",
    );
    assert_eq!(expansion.site, Site::Item);
    assert_eq!(
        tokens(&expansion.tokens),
        tokens(
            "#[runtime::main]
            async fn main() {
                async fn actual(s: String) -> Result<String, Error> {
                    {
                        dbg!(&s);
                        Ok(s)
                    }
                }
                let f = lambda::handler_fn(actual);
                lambda::run(f).await.unwrap();
            }"
        )
    );
    rejected("fn main(s: String) -> Result<String, Error> { Ok(s) }", ASYNC, Site::Item);
}

#[test]
fn context_is_a_second_argument() {
    let expansion = lambda(
        "ignored",
        "/// Says hello.
        #[runtime::main]
        async fn main(s: String, ctx: LambdaCtx) -> Result<String, Err> {
            let _ = ctx;
            Ok(s)
        }",
    );
    assert_eq!(expansion.site, Site::Item);
    assert_eq!(
        tokens(&expansion.tokens),
        tokens(
            "#[doc = \" Says hello.\"]
            #[runtime::main]
            async fn main() {
                async fn actual(s: String, ctx: LambdaCtx) -> Result<String, Err> {
                    {
                        let _ = ctx;
                        Ok(s)
                    }
                }
                let f = lambda::handler_fn(actual);
                lambda::run(f).await.unwrap();
            }"
        )
    );
}

#[test]
fn expansion_is_a_function() {
    let expansion = lambda("", "async fn main((a, b): (u8, u8), mut ctx: C) {}");
    let item = syn::parse_str::<syn::ItemFn>(&expansion.tokens).unwrap();
    assert_eq!(item.ident.to_string(), "main");
    assert!(item.decl.inputs.is_empty());
    assert!(item.asyncness.is_some());
}

#[test]
fn arguments_of_the_attribute_make_no_difference() {
    let item = "async fn main(s: String) -> Result<String, Err> { Ok(s) }";
    assert_eq!(lambda("", item), lambda("a = 1", item));
}

#[test]
fn only_main_can_be_tagged() {
    rejected("async fn handler(s: String) {}", MAIN, Site::Name);
    rejected("fn r#main() {}", MAIN, Site::Name);
}

#[test]
fn main_has_to_be_asynchronous() {
    rejected("fn main() {}", ASYNC, Site::Item);
}

#[test]
fn number_of_arguments_is_limited() {
    rejected("async fn main() {}", COUNT, Site::Inputs);
    rejected("async fn main(a: A, b: B, c: C) {}", COUNT, Site::Inputs);
}

#[test]
fn arguments_have_to_be_fully_formed() {
    rejected("async fn main(self) {}", FORM, Site::Inputs);
    rejected("async fn main(&self, b: B) {}", FORM, Site::Inputs);
    rejected("async fn main(a: A, self) {}", FORM, Site::Inputs);
}

#[test]
fn item_that_is_no_function_is_an_error() {
    let expansion = lambda("", "struct Main;");
    assert_eq!(expansion.site, Site::Unread);
    assert!(expansion.tokens.starts_with("compile_error ! {"));
}

#[test]
fn faults_are_reported_in_order() {
    rejected("fn other() {}", MAIN, Site::Name);
    rejected("fn main(self) {}", ASYNC, Site::Item);
    rejected("async fn main(self, b: B, c: C) {}", COUNT, Site::Inputs);
}

#[test]
fn function_that_was_read_is_expanded() {
    let captured = |pat: &str, ty: &str| FnArg::Captured(pat.to_string(), ty.to_string());
    let item = |inputs| ItemFn {
        attrs: vec!["#[a]".to_string(), "#[b]".to_string()],
        asyncness: true,
        ident: "main".to_string(),
        inputs,
        output: "-> C".to_string(),
        block: "{ c }".to_string(),
    };
    let tail = "let f = lambda::handler_fn(actual); lambda::run(f).await.unwrap(); }";
    let expansion = expand(Ok(item(vec![captured("e", "E")])));
    assert_eq!(
        expansion.tokens,
        format!("#[a] #[b] async fn main() {{ async fn actual(e: E) -> C {{ {{ c }} }} {}", tail)
    );
    let expansion = expand(Ok(item(vec![captured("e", "E"), captured("x", "X")])));
    assert_eq!(
        expansion.tokens,
        format!(
            "#[a] #[b] async fn main() {{ async fn actual(e: E, x: X) -> C {{ {{ c }} }} {}",
            tail
        )
    );
    let others = [
        || FnArg::SelfRef,
        || FnArg::SelfValue,
        || FnArg::Inferred,
        || FnArg::Ignored,
    ];
    for other in others {
        for inputs in [
            vec![other()],
            vec![other(), captured("x", "X")],
            vec![captured("e", "E"), other()],
        ] {
            let expansion = expand(Ok(item(inputs)));
            assert_eq!(expansion.tokens, format!("compile_error!(\"{}\");", FORM));
            assert_eq!(expansion.site, Site::Inputs);
        }
    }
    let expansion = expand(Err("tokens".to_string()));
    assert_eq!(expansion, Expansion { tokens: "tokens".to_string(), site: Site::Unread });
}

#[test]
fn text_that_is_not_made_of_tokens_is_an_error() {
    for item in ["async fn main(e: E) { 1u7 }", "async fn main(e: E) { c\"x\" }", "fn main(", "\""] {
        assert_eq!(lambda("", item).site, Site::Unread, "{}", item);
    }
}

#[test]
fn text_that_cannot_be_read_is_told_apart() {
    let objects = [
        "for<'a> dyn 'a + T",
        "for<>dyn'a+T",
        "for /* x */ < 'a > // y > z\n dyn /* /* 'b */ */ 'a + T",
        "for<'a: 'b, 'c>\u{2003}dyn\u{200e} 'a + T",
        "for<#[x = \">\"] 'a> dyn 'a + T",
        "&for<'a> dyn 'a + T",
    ];
    for object in objects {
        for item in [
            format!("async fn main(x: {}) {{}}", object),
            format!("async fn main(x: X) -> {} {{}}", object),
            format!("async fn main(x: X) {{ let y: {}; }}", object),
        ] {
            assert!(!is_readable(&item), "{}", item);
            assert_eq!(try_lambda("", &item), None, "{}", item);
        }
    }
}

#[test]
fn text_that_can_be_read_is_expanded() {
    let types = [
        "Box<dyn 'a + T>",
        "for<'a> fn(dyn T + 'a)",
        "Box<for<'a> dyn T<'a> + 'b>",
        "Box<\n dyn 'a + T>",
        "Foo<{ 3 }>",
        "&'a dyn T",
        "for<'a> T<'a>",
    ];
    for ty in types {
        let item = format!("async fn main(x: {}) -> {} {{ x / 2; /* y */ }}", ty, ty);
        assert!(is_readable(&item), "{}", item);
        let expansion = try_lambda("", &item).unwrap();
        assert_eq!(expansion, lambda("", &item));
        assert_eq!(expansion.site, Site::Item, "{}", item);
    }
    assert_eq!(try_lambda("", "impl<'a> dyn 'a + T {}").unwrap().site, Site::Unread);
    assert!(is_readable("async fn main(x: X) { impl<'a> dyn 'a + T {} /* for<"));
    assert!(is_readable(""));
}
