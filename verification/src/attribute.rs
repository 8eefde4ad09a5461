//! The `#[lambda]` attribute: it turns an asynchronous `main` that handles one event into one
//! that runs it as a handler.
//!
//! Syntax is held as its text, as its tokens print.
use vstd::prelude::*;
use vstd::string::*;
use crate::source::{is_readable, readable};
use quote::ToTokens;
use self::FnArg::{Captured, Ignored, Inferred, SelfRef, SelfValue};
use syn::{parse_str, ItemFn as SynItemFn};
use syn::FnArg::{Captured as SynCaptured, Ignored as SynIgnored, Inferred as SynInferred};
use syn::FnArg::{SelfRef as SynSelfRef, SelfValue as SynSelfValue};

verus! {

/// An argument of a function.
#[derive(Debug, PartialEq)]
pub enum FnArg {
    /// `&self` or `&mut self`.
    SelfRef,
    /// `self` or `mut self`.
    SelfValue,
    /// A pattern with its type.
    Captured(String, String),
    /// A pattern whose type is to be inferred.
    Inferred,
    /// A type without a pattern.
    Ignored,
}

/// An argument of a function.
pub enum FnArgView {
    SelfRef,
    SelfValue,
    Captured { pat: Seq<char>, ty: Seq<char> },
    Inferred,
    Ignored,
}

impl View for FnArg {
    type V = FnArgView;

    open spec fn view(&self) -> FnArgView {
        match self {
            FnArg::SelfRef => FnArgView::SelfRef,
            FnArg::SelfValue => FnArgView::SelfValue,
            FnArg::Captured(pat, ty) => FnArgView::Captured { pat: pat@, ty: ty@ },
            FnArg::Inferred => FnArgView::Inferred,
            FnArg::Ignored => FnArgView::Ignored,
        }
    }
}

/// What the attribute reads of a function.
#[derive(Debug, PartialEq)]
pub struct ItemFn {
    /// The attributes of the function.
    pub attrs: Vec<String>,
    /// Whether the function is asynchronous.
    pub asyncness: bool,
    /// The name of the function.
    pub ident: String,
    /// The arguments of the function.
    pub inputs: Vec<FnArg>,
    /// The type that the function returns, with the arrow before it.
    pub output: String,
    /// The body of the function, with its braces.
    pub block: String,
}

/// What the attribute reads of a function.
pub struct ItemFnView {
    pub attrs: Seq<Seq<char>>,
    pub asyncness: bool,
    pub ident: Seq<char>,
    pub inputs: Seq<FnArgView>,
    pub output: Seq<char>,
    pub block: Seq<char>,
}

impl View for ItemFn {
    type V = ItemFnView;

    open spec fn view(&self) -> ItemFnView {
        ItemFnView {
            attrs: self.attrs@.map_values(|a: String| a@),
            asyncness: self.asyncness,
            ident: self.ident@,
            inputs: self.inputs@.map_values(|a: FnArg| a@),
            output: self.output@,
            block: self.block@,
        }
    }
}

/// What the text of an item was read as, or the tokens of the error.
pub open spec fn parsed(item: Result<ItemFn, String>) -> Result<ItemFnView, Seq<char>> {
    match item {
        Ok(item) => Ok(item@),
        Err(tokens) => Err(tokens@),
    }
}

/// What `syn` reads the text of an item as, where it is a function: its parts, as their tokens
/// print; otherwise the tokens of a compilation error.
///
/// The text is read and printed by `proc-macro2` without its `proc-macro` feature, which never
/// asks a compiler: the result is the same inside a procedural macro and outside of one.
pub uninterp spec fn syn_item_fn(item: Seq<char>) -> Result<ItemFnView, Seq<char>>;

/// Where the compiler points to when it has something to say about tokens.
#[derive(Debug, PartialEq)]
pub enum Site {
    /// Where the item could not be read.
    Unread,
    /// The name of the function.
    Name,
    /// The arguments of the function.
    Inputs,
    /// The whole function.
    Item,
}

/// Tokens that take the place of an item.
#[derive(Debug, PartialEq)]
pub struct Expansion {
    /// The text of the tokens.
    pub tokens: String,
    /// Where they come from.
    pub site: Site,
}

/// Tokens that take the place of an item.
pub struct ExpansionView {
    pub tokens: Seq<char>,
    pub site: Site,
}

impl View for Expansion {
    type V = ExpansionView;

    open spec fn view(&self) -> ExpansionView {
        ExpansionView { tokens: self.tokens@, site: self.site }
    }
}

/// The tokens of an error that the compiler reports, with a message that needs no escapes.
pub open spec fn rejection(message: Seq<char>, site: Site) -> ExpansionView {
    ExpansionView { tokens: "compile_error!(\""@ + message + "\");"@, site }
}

/// Texts, each followed by a space.
pub open spec fn spaced(texts: Seq<Seq<char>>) -> Seq<char>
    decreases texts.len(),
{
    if texts.len() == 0 {
        seq![]
    } else {
        spaced(texts.drop_last()) + texts.last() + " "@
    }
}

/// An argument that is a pattern with its type, as it is written.
pub open spec fn written(arg: FnArgView) -> Seq<char> {
    arg->pat + ": "@ + arg->ty
}

/// The argument list of the handler.
pub open spec fn arguments(inputs: Seq<FnArgView>) -> Seq<char> {
    if inputs.len() == 1 {
        written(inputs[0])
    } else {
        written(inputs[0]) + ", "@ + written(inputs[1])
    }
}

/// The function that runs the body of `item` as a handler.
pub open spec fn runner(item: ItemFnView) -> Seq<char> {
    spaced(item.attrs) + "async fn main() { async fn actual("@ + arguments(item.inputs) + ") "@
        + item.output + " { "@ + item.block
        + " } let f = lambda::handler_fn(actual); lambda::run(f).await.unwrap(); }"@
}

/// What takes the place of an item.
pub open spec fn expansion(item: Result<ItemFnView, Seq<char>>) -> ExpansionView {
    match item {
        Err(tokens) => ExpansionView { tokens, site: Site::Unread },
        Ok(item) => if item.ident != "main"@ {
            rejection(
                "only the main function can be tagged with #[lambda::main]"@,
                Site::Name,
            )
        } else if !item.asyncness {
            rejection(
                "the async keyword is missing from the function declaration"@,
                Site::Item,
            )
        } else if item.inputs.len() != 1 && item.inputs.len() != 2 {
            rejection(
                "fn main can only take 2 arguments: The event and the Lambda context"@,
                Site::Inputs,
            )
        } else if exists|i: int|
            0 <= i < item.inputs.len() && !(#[trigger] item.inputs[i] is Captured) {
            rejection("fn main should take a fully formed argument"@, Site::Inputs)
        } else {
            ExpansionView { tokens: runner(item), site: Site::Item }
        },
    }
}

/// Turns an item that is tagged with `#[lambda]` into what takes its place. The arguments of the
/// attribute make no difference. The item has to be one that `syn` reads without a panic.
pub fn lambda(_attr: &str, item: &str) -> (expanded: Expansion)
    requires
        readable(item@),
    ensures
        expanded@ == expansion(syn_item_fn(item@)),
{
    expand(parse_item_fn(item))
}

/// Turns an item that is tagged with `#[lambda]` into what takes its place, unless `syn` may panic
/// on it.
pub fn try_lambda(attr: &str, item: &str) -> (expanded: Option<Expansion>)
    ensures
        match expanded {
            Some(expanded) => readable(item@) && expanded@ == expansion(syn_item_fn(item@)),
            None => !readable(item@),
        },
{
    if is_readable(item) {
        Some(lambda(attr, item))
    } else {
        None
    }
}

/// Turns a function that was read into what takes its place. It has to be an asynchronous `main`
/// that takes an event and, where it wants one, a context.
pub fn expand(item: Result<ItemFn, String>) -> (expanded: Expansion)
    ensures
        expanded@ == expansion(parsed(item)),
{
    let item = match item {
        Ok(item) => item,
        Err(tokens) => return Expansion { tokens, site: Site::Unread },
    };
    if !item.ident.eq(&"main".to_owned()) {
        return reject(
            "only the main function can be tagged with #[lambda::main]",
            Site::Name,
        );
    }
    if !item.asyncness {
        return reject(
            "the async keyword is missing from the function declaration",
            Site::Item,
        );
    }
    if item.inputs.len() != 1 && item.inputs.len() != 2 {
        return reject(
            "fn main can only take 2 arguments: The event and the Lambda context",
            Site::Inputs,
        );
    }
    let ghost inputs = item@.inputs;
    let arguments = match captured(&item.inputs[0]) {
        Some(event) => event,
        None => {
            assert(!(inputs[0] is Captured));
            return reject("fn main should take a fully formed argument", Site::Inputs);
        },
    };
    let arguments = if item.inputs.len() == 2 {
        match captured(&item.inputs[1]) {
            Some(context) => arguments.concat(", ").concat(context.as_str()),
            None => {
                assert(!(inputs[1] is Captured));
                return reject("fn main should take a fully formed argument", Site::Inputs);
            },
        }
    } else {
        arguments
    };
    let mut tokens = space(&item.attrs);
    tokens.append("async fn main() { async fn actual(");
    tokens.append(arguments.as_str());
    tokens.append(") ");
    tokens.append(item.output.as_str());
    tokens.append(" { ");
    tokens.append(item.block.as_str());
    tokens.append(" } let f = lambda::handler_fn(actual); lambda::run(f).await.unwrap(); }");
    Expansion { tokens, site: Site::Item }
}

/// The tokens of an error that the compiler reports.
fn reject(message: &str, site: Site) -> (expanded: Expansion)
    ensures
        expanded@ == rejection(message@, site),
{
    let mut tokens = "compile_error!(\"".to_owned();
    tokens.append(message);
    tokens.append("\");");
    Expansion { tokens, site }
}

/// An argument that is a pattern with its type, as it is written.
fn captured(arg: &FnArg) -> (text: Option<String>)
    ensures
        match text {
            Some(text) => arg@ is Captured && text@ == written(arg@),
            None => !(arg@ is Captured),
        },
{
    match arg {
        FnArg::Captured(pat, ty) => Some(pat.clone().concat(": ").concat(ty.as_str())),
        FnArg::SelfRef | FnArg::SelfValue | FnArg::Inferred | FnArg::Ignored => None,
    }
}

/// The texts, each followed by a space.
fn space(texts: &Vec<String>) -> (joined: String)
    ensures
        joined@ == spaced(texts@.map_values(|t: String| t@)),
{
    let ghost views = texts@.map_values(|t: String| t@);
    let mut joined = String::new();
    for i in 0..texts.len()
        invariant
            views == texts@.map_values(|t: String| t@),
            joined@ == spaced(views.take(i as int)),
    {
        joined.append(texts[i].as_str());
        joined.append(" ");
        assert(views.take(i + 1).drop_last() =~= views.take(i as int));
    }
    assert(views.take(texts.len() as int) =~= views);
    joined
}

/// The room that the first `n` texts take, each with one character more.
pub open spec fn room(texts: Seq<Seq<char>>, n: int) -> int
    decreases n,
{
    if n <= 0 {
        0
    } else {
        room(texts, n - 1) + texts[n - 1].len() + 1
    }
}

proof fn lemma_room_of_fewer(texts: Seq<Seq<char>>, n: int)
    requires
        0 <= n < texts.len(),
    ensures
        room(texts.drop_last(), n) == room(texts, n),
        room(texts, n) >= 0,
    decreases n,
{
    if n > 0 {
        lemma_room_of_fewer(texts, n - 1);
        assert(texts.drop_last()[n - 1] == texts[n - 1]);
    }
}

proof fn lemma_room_grows(texts: Seq<Seq<char>>, m: int, n: int)
    requires
        0 <= m < n <= texts.len(),
    ensures
        0 <= room(texts, m),
        room(texts, m) + texts[m].len() + 1 <= room(texts, n),
    decreases n,
{
    if m == 0 {
        assert(room(texts, 0) == 0);
    } else {
        lemma_room_grows(texts, m - 1, m);
    }
    if m < n - 1 {
        lemma_room_grows(texts, m, n - 1);
    }
}

/// Texts, each followed by a space, stand one after the other.
proof fn lemma_spaced(texts: Seq<Seq<char>>)
    ensures
        spaced(texts).len() == room(texts, texts.len() as int),
        forall|i: int|
            0 <= i < texts.len() ==> spaced(texts).subrange(
                room(texts, i),
                room(texts, i) + texts[i].len(),
            ) == #[trigger] texts[i] && spaced(texts)[room(texts, i) + texts[i].len()] == ' ',
    decreases texts.len(),
{
    reveal_strlit(" ");
    if texts.len() > 0 {
        let fewer = texts.drop_last();
        let last = texts.len() - 1;
        lemma_spaced(fewer);
        lemma_room_of_fewer(texts, last);
        let whole = spaced(texts);
        assert(whole == spaced(fewer) + texts.last() + " "@);
        assert forall|i: int| 0 <= i < texts.len() implies whole.subrange(
            room(texts, i),
            room(texts, i) + texts[i].len(),
        ) == #[trigger] texts[i] && whole[room(texts, i) + texts[i].len()] == ' ' by {
            lemma_room_of_fewer(texts, i);
            if i < last {
                assert(fewer[i] == texts[i]);
                lemma_room_grows(fewer, i, last);
                let from = room(texts, i);
                let to = from + texts[i].len();
                assert(whole.subrange(from, to) =~= spaced(fewer).subrange(from, to));
            } else {
                assert(whole.subrange(room(texts, i), room(texts, i) + texts[i].len())
                    =~= texts[i]);
            }
        }
    }
}

/// An accepted function becomes a `main` that runs it. Its attributes stand first, each as it is
/// and in order, with a space behind it. What follows them is an asynchronous `main` without
/// arguments that holds the function under another name, with its arguments, what it returns and
/// its body, and that runs it as a handler.
pub proof fn law_expansion_keeps_the_function(item: ItemFnView)
    requires
        item.ident == "main"@,
        item.asyncness,
        item.inputs.len() == 1 || item.inputs.len() == 2,
        forall|i: int| 0 <= i < item.inputs.len() ==> #[trigger] item.inputs[i] is Captured,
    ensures
        expansion(Ok(item)).site == Site::Item,
        forall|i: int|
            0 <= i < item.attrs.len() ==> {
                &&& expansion(Ok(item)).tokens.subrange(
                    room(item.attrs, i),
                    room(item.attrs, i) + item.attrs[i].len(),
                ) == #[trigger] item.attrs[i]
                &&& expansion(Ok(item)).tokens[room(item.attrs, i) + item.attrs[i].len()] == ' '
            },
        expansion(Ok(item)).tokens.skip(room(item.attrs, item.attrs.len() as int))
            == "async fn main() { async fn actual("@ + item.inputs[0]->pat + ": "@
            + item.inputs[0]->ty + (if item.inputs.len() == 2 {
            ", "@ + item.inputs[1]->pat + ": "@ + item.inputs[1]->ty
        } else {
            seq![]
        }) + ") "@ + item.output + " { "@ + item.block
            + " } let f = lambda::handler_fn(actual); lambda::run(f).await.unwrap(); }"@,
{
    let head = spaced(item.attrs);
    let start = "async fn main() { async fn actual("@;
    let end = " } let f = lambda::handler_fn(actual); lambda::run(f).await.unwrap(); }"@;
    let first = item.inputs[0];
    let second = item.inputs[1];
    let one = first->pat + ": "@ + first->ty;
    let text = start + first->pat + ": "@ + first->ty;
    let rest = if item.inputs.len() == 2 {
        ", "@ + second->pat + ": "@ + second->ty
    } else {
        seq![]
    };
    assert(start + one == text) by {
        lemma_joined(start, first->pat, ": "@);
        lemma_joined(start, first->pat + ": "@, first->ty);
    }
    assert(start + arguments(item.inputs) == text + rest) by {
        if item.inputs.len() == 2 {
            lemma_joined(one, ", "@, written(second));
            lemma_joined(", "@, second->pat + ": "@, second->ty);
            lemma_joined(", "@, second->pat, ": "@);
            lemma_joined(start, one, rest);
        } else {
            assert(text + rest =~= text);
        }
    }
    let args = start + arguments(item.inputs);
    let tail = args + ") "@ + item.output + " { "@ + item.block + end;
    assert(runner(item) == head + tail) by {
        lemma_joined(head, start, arguments(item.inputs));
        lemma_joined(head, args, ") "@);
        lemma_joined(head, args + ") "@, item.output);
        lemma_joined(head, args + ") "@ + item.output, " { "@);
        lemma_joined(head, args + ") "@ + item.output + " { "@, item.block);
        lemma_joined(head, args + ") "@ + item.output + " { "@ + item.block, end);
    }
    lemma_first_texts(item.attrs, tail);
}

/// It makes no difference which of three texts are joined first.
proof fn lemma_joined(a: Seq<char>, b: Seq<char>, c: Seq<char>)
    ensures
        a + b + c == a + (b + c),
{
    assert(a + b + c =~= a + (b + c));
}

/// Texts, each followed by a space, stand one after the other, and then what follows them.
proof fn lemma_first_texts(texts: Seq<Seq<char>>, tail: Seq<char>)
    ensures
        forall|i: int|
            0 <= i < texts.len() ==> {
                &&& (spaced(texts) + tail).subrange(
                    room(texts, i),
                    room(texts, i) + texts[i].len(),
                ) == #[trigger] texts[i]
                &&& (spaced(texts) + tail)[room(texts, i) + texts[i].len()] == ' '
            },
        (spaced(texts) + tail).skip(room(texts, texts.len() as int)) == tail,
{
    lemma_spaced(texts);
    let head = spaced(texts);
    let tokens = head + tail;
    assert forall|i: int| 0 <= i < texts.len() implies {
        &&& tokens.subrange(room(texts, i), room(texts, i) + texts[i].len())
            == #[trigger] texts[i]
        &&& tokens[room(texts, i) + texts[i].len()] == ' '
    } by {
        lemma_room_grows(texts, i, texts.len() as int);
        let from = room(texts, i);
        let to = from + texts[i].len();
        assert(tokens.subrange(from, to) =~= head.subrange(from, to));
    }
    assert(tokens.skip(head.len() as int) =~= tail);
}

/// What `expand` makes of an accepted function, in terms of the function itself: each attribute
/// at its place, then the `main` that runs it.
pub proof fn law_expand_keeps_the_function(item: ItemFn, expanded: Expansion)
    requires
        call_ensures(expand, (Ok(item),), expanded),
        item.ident@ == "main"@,
        item.asyncness,
        item.inputs@.len() == 1 || item.inputs@.len() == 2,
        forall|i: int| 0 <= i < item.inputs@.len() ==> #[trigger] item.inputs@[i] is Captured,
    ensures
        ({
            let attrs = item.attrs@.map_values(|a: String| a@);
            let tokens = expanded.tokens@;
            &&& expanded.site == Site::Item
            &&& forall|i: int|
                0 <= i < item.attrs@.len() ==> {
                    &&& tokens.subrange(room(attrs, i), room(attrs, i) + item.attrs@[i]@.len())
                        == (#[trigger] item.attrs@[i])@
                    &&& tokens[room(attrs, i) + item.attrs@[i]@.len()] == ' '
                }
            &&& tokens.skip(room(attrs, attrs.len() as int))
                == "async fn main() { async fn actual("@ + item.inputs@[0]->Captured_0@ + ": "@
                + item.inputs@[0]->Captured_1@ + (if item.inputs@.len() == 2 {
                ", "@ + item.inputs@[1]->Captured_0@ + ": "@ + item.inputs@[1]->Captured_1@
            } else {
                seq![]
            }) + ") "@ + item.output@ + " { "@ + item.block@
                + " } let f = lambda::handler_fn(actual); lambda::run(f).await.unwrap(); }"@
        }),
{
    assert forall|i: int| 0 <= i < item@.inputs.len() implies #[trigger] item@.inputs[i]
        is Captured by {
        assert(item.inputs@[i] is Captured);
    }
    law_expansion_keeps_the_function(item@);
    assert forall|i: int| 0 <= i < item.attrs@.len() implies {
        &&& expanded.tokens@.subrange(
            room(item@.attrs, i),
            room(item@.attrs, i) + item.attrs@[i]@.len(),
        ) == (#[trigger] item.attrs@[i])@
        &&& expanded.tokens@[room(item@.attrs, i) + item.attrs@[i]@.len()] == ' '
    } by {
        assert(item@.attrs[i] == item.attrs@[i]@);
    }
}

/// What `expand` makes of all else: the error that the compiler reports, at the place that is at
/// fault. The name decides first, then whether the function is asynchronous, then the number of
/// its arguments, then their form.
pub proof fn law_expand_reports_the_first_fault(item: Result<ItemFn, String>, expanded: Expansion)
    requires
        call_ensures(expand, (item,), expanded),
    ensures
        match item {
            Err(tokens) => expanded.tokens@ == tokens@ && expanded.site == Site::Unread,
            Ok(item) => {
                &&& item.ident@ != "main"@ ==> expanded.site == Site::Name && expanded.tokens@
                    == "compile_error!(\""@
                    + "only the main function can be tagged with #[lambda::main]"@ + "\");"@
                &&& item.ident@ == "main"@ && !item.asyncness ==> expanded.site == Site::Item
                    && expanded.tokens@ == "compile_error!(\""@
                    + "the async keyword is missing from the function declaration"@ + "\");"@
                &&& item.ident@ == "main"@ && item.asyncness && item.inputs@.len() != 1
                    && item.inputs@.len() != 2 ==> expanded.site == Site::Inputs
                    && expanded.tokens@ == "compile_error!(\""@
                    + "fn main can only take 2 arguments: The event and the Lambda context"@
                    + "\");"@
                &&& forall|i: int|
                    item.ident@ == "main"@ && item.asyncness && (item.inputs@.len() == 1
                        || item.inputs@.len() == 2) && 0 <= i < item.inputs@.len() && !(
                    #[trigger] item.inputs@[i] is Captured) ==> expanded.site == Site::Inputs
                        && expanded.tokens@ == "compile_error!(\""@
                        + "fn main should take a fully formed argument"@ + "\");"@
            },
        },
{
    if item is Ok {
        let f = item->Ok_0;
        assert forall|i: int|
            f.ident@ == "main"@ && f.asyncness && (f.inputs@.len() == 1 || f.inputs@.len() == 2)
                && 0 <= i < f.inputs@.len() && !(#[trigger] f.inputs@[i] is Captured) implies
            expanded.site == Site::Inputs && expanded.tokens@ == "compile_error!(\""@
            + "fn main should take a fully formed argument"@ + "\");"@ by {
            assert(f@.inputs[i] == f.inputs@[i]@);
            assert(!(f@.inputs[i] is Captured));
        }
    }
}

/// The attribute gives for a text what `expand` gives for the function that the text is read as,
/// whatever the arguments of the attribute are; where the text may not be read, nothing.
pub proof fn law_attribute_expands_what_is_read(
    attr: &str,
    other: &str,
    item: &str,
    read: Result<ItemFn, String>,
    expanded: Expansion,
    given: Expansion,
    tried: Option<Expansion>,
)
    requires
        call_ensures(lambda, (attr, item), given),
        call_ensures(try_lambda, (other, item), tried),
        call_ensures(expand, (read,), expanded),
        parsed(read) == syn_item_fn(item@),
    ensures
        given.tokens@ == expanded.tokens@,
        given.site == expanded.site,
        match tried {
            Some(t) => readable(item@) && t.tokens@ == expanded.tokens@ && t.site == expanded.site,
            None => !readable(item@),
        },
{
    assert(given@ == expanded@);
}

/// What the attribute accepts: an asynchronous `main` that takes an event and, where it wants
/// one, a context, each a pattern with its type.
pub open spec fn accepted(item: ItemFnView) -> bool {
    &&& item.ident == "main"@
    &&& item.asyncness
    &&& 1 <= item.inputs.len() <= 2
    &&& forall|i: int| 0 <= i < item.inputs.len() ==> #[trigger] item.inputs[i] is Captured
}

/// What is accepted is run as a handler; all else gives an error that the compiler reports.
pub proof fn law_only_what_is_accepted_runs(item: ItemFnView)
    ensures
        accepted(item) ==> expansion(Ok(item)) == (ExpansionView {
            tokens: runner(item),
            site: Site::Item,
        }),
        !accepted(item) ==> exists|message: Seq<char>, site: Site| #[trigger]
            rejection(message, site) == expansion(Ok(item)),
{
}

/// The name decides before all else, then whether the function is asynchronous, then how many
/// arguments it takes.
pub proof fn law_first_fault_is_reported(item: ItemFnView)
    ensures
        item.ident != "main"@ ==> expansion(Ok(item)) == rejection(
            "only the main function can be tagged with #[lambda::main]"@,
            Site::Name,
        ),
        item.ident == "main"@ && !item.asyncness ==> expansion(Ok(item)) == rejection(
            "the async keyword is missing from the function declaration"@,
            Site::Item,
        ),
        item.ident == "main"@ && item.asyncness && !(1 <= item.inputs.len() <= 2) ==> expansion(
            Ok(item),
        ) == rejection(
            "fn main can only take 2 arguments: The event and the Lambda context"@,
            Site::Inputs,
        ),
{
}

/// Calls `syn::parse_str` for `syn::ItemFn`. The result is named: which texts are functions, and
/// how the tokens of their parts print, is not stated. A type that binds lifetimes and then starts
/// with a lifetime makes `syn` panic; text in which there may be one is left out.
#[verifier::external_body]
fn parse_item_fn(item: &str) -> (read: Result<ItemFn, String>)
    requires
        readable(item@),
    ensures
        parsed(read) == syn_item_fn(item@),
{
    let text = |t: &dyn ToTokens| t.into_token_stream().to_string();
    let f: SynItemFn = parse_str(item).map_err(|e| text(&e.to_compile_error()))?;
    Ok(ItemFn {
        inputs: f.decl.inputs.iter().map(|arg| match arg {
            SynSelfRef(_) => SelfRef,
            SynSelfValue(_) => SelfValue,
            SynCaptured(a) => Captured(text(&a.pat), text(&a.ty)),
            SynInferred(_) => Inferred,
            SynIgnored(_) => Ignored,
        }).collect(),
        attrs: f.attrs.iter().map(|a| text(a)).collect(),
        asyncness: f.asyncness.is_some(),
        ident: f.ident.to_string(),
        output: text(&f.decl.output), block: text(&f.block),
    })
}

} // verus!
