//! What the example servlets answer, as a list of actions on the response.
//!
//! A servlet decides; the code that holds the request handle carries the
//! actions out, in order.
use vstd::prelude::*;
use vstd::string::*;
use vstd::utf8::*;
use crate::cstr::no_nul_char;

verus! {

/// The status code a servlet returns to the host when it has handled the
/// request.
pub const HANDLED: u32 = 0;

/// The HTTP status the echo servlet answers with.
pub const STATUS_OK: u32 = 200;

/// One action on the response under construction.
#[derive(Debug, Clone, PartialEq, Eq)]
pub enum Action {
    /// Set the HTTP status code.
    SetStatus(u32),
    /// Set a response header: name, then value.
    SetHeader(String, String),
    /// Append bytes to the response body.
    Write(Vec<u8>),
    /// Send what has been written so far.
    Flush,
}

/// An action with its strings and bytes as sequences.
pub enum ActionView {
    SetStatus(u32),
    SetHeader(Seq<char>, Seq<char>),
    Write(Seq<u8>),
    Flush,
}

impl View for Action {
    type V = ActionView;

    open spec fn view(&self) -> ActionView {
        match self {
            Action::SetStatus(code) => ActionView::SetStatus(*code),
            Action::SetHeader(name, value) => ActionView::SetHeader(name@, value@),
            Action::Write(bytes) => ActionView::Write(bytes@),
            Action::Flush => ActionView::Flush,
        }
    }
}

pub open spec fn views(actions: Seq<Action>) -> Seq<ActionView> {
    actions.map_values(|a: Action| a@)
}

pub open spec fn text_of(s: Option<String>) -> Option<Seq<char>> {
    match s {
        Some(t) => Some(t@),
        None => None,
    }
}

/// Writing `text` when it is there, nothing when it is not.
pub open spec fn write_if_present(text: Option<Seq<char>>) -> Seq<ActionView> {
    match text {
        Some(t) => seq![ActionView::Write(encode_utf8(t))],
        None => seq![],
    }
}

/// The greeting servlet writes one fixed line.
pub open spec fn hello_plan() -> Seq<ActionView> {
    seq![ActionView::Write(encode_utf8("hello from Rust"@))]
}

/// The echo servlet answers 200 with a plain-text body made of the request's
/// `arg` argument (if any), its method, and its `User-Agent` header (if any),
/// then flushes.
pub open spec fn echo_plan(
    arg: Option<Seq<char>>,
    method: Seq<char>,
    agent: Option<Seq<char>>,
) -> Seq<ActionView> {
    seq![
        ActionView::SetStatus(200),
        ActionView::SetHeader("Content-Type"@, "text/plain; charset=UTF-8"@),
    ] + write_if_present(arg) + seq![ActionView::Write(encode_utf8(method))]
        + write_if_present(agent) + seq![ActionView::Flush]
}

fn write_text(text: &str) -> (r: Action)
    ensures
        r@ == ActionView::Write(encode_utf8(text@)),
{
    Action::Write(text.as_bytes_vec())
}

/// The actions of the greeting servlet.
pub fn hello_actions() -> (r: Vec<Action>)
    ensures
        views(r@) == hello_plan(),
{
    let mut r: Vec<Action> = Vec::new();
    r.push(write_text("hello from Rust"));
    assert(views(r@) =~= hello_plan());
    r
}

/// The actions of the echo servlet, given the request's `arg` argument, its
/// method and its `User-Agent` header as the host reports them.
pub fn echo_actions(arg: Option<String>, method: String, agent: Option<String>) -> (r: Vec<Action>)
    ensures
        views(r@) == echo_plan(text_of(arg), method@, text_of(agent)),
{
    let mut r: Vec<Action> = Vec::new();
    r.push(Action::SetStatus(STATUS_OK));
    r.push(Action::SetHeader(String::from_str("Content-Type"), String::from_str("text/plain; charset=UTF-8")));
    if let Some(a) = &arg {
        r.push(write_text(a.as_str()));
    }
    r.push(write_text(method.as_str()));
    if let Some(u) = &agent {
        r.push(write_text(u.as_str()));
    }
    r.push(Action::Flush);
    assert(views(r@) =~= echo_plan(text_of(arg), method@, text_of(agent)));
    r
}

/// The bytes that a plan appends to the body, in order.
pub open spec fn body_of(plan: Seq<ActionView>) -> Seq<u8>
    decreases plan.len(),
{
    if plan.len() == 0 {
        seq![]
    } else {
        let head = match plan[0] {
            ActionView::Write(b) => b,
            _ => seq![],
        };
        head + body_of(plan.drop_first())
    }
}

pub open spec fn text_or_empty(text: Option<Seq<char>>) -> Seq<char> {
    match text {
        Some(t) => t,
        None => seq![],
    }
}

proof fn lemma_body_of_concat(a: Seq<ActionView>, b: Seq<ActionView>)
    ensures
        body_of(a + b) == body_of(a) + body_of(b),
    decreases a.len(),
{
    if a.len() == 0 {
        assert(a + b =~= b);
    } else {
        assert((a + b).drop_first() =~= a.drop_first() + b);
        lemma_body_of_concat(a.drop_first(), b);
        assert(body_of(a + b) =~= body_of(a) + body_of(b));
    }
}

proof fn lemma_encode_concat(a: Seq<char>, b: Seq<char>)
    ensures
        encode_utf8(a + b) == encode_utf8(a) + encode_utf8(b),
    decreases a.len(),
{
    if a.len() == 0 {
        assert(a + b =~= b);
    } else {
        assert((a + b).drop_first() =~= a.drop_first() + b);
        lemma_encode_concat(a.drop_first(), b);
        assert(encode_utf8(a + b) =~= encode_utf8(a) + encode_utf8(b));
    }
}

proof fn lemma_body_of_single(x: ActionView)
    ensures
        body_of(seq![x]) == (match x {
            ActionView::Write(b) => b,
            _ => seq![],
        }),
{
    assert(seq![x].drop_first() =~= Seq::<ActionView>::empty());
    assert(body_of(Seq::<ActionView>::empty()) == Seq::<u8>::empty());
    assert(body_of(seq![x]) =~= (match x {
        ActionView::Write(b) => b,
        _ => seq![],
    }));
}

proof fn lemma_body_of_write_if_present(text: Option<Seq<char>>)
    ensures
        body_of(write_if_present(text)) == encode_utf8(text_or_empty(text)),
{
    match text {
        Some(t) => lemma_body_of_single(ActionView::Write(encode_utf8(t))),
        None => {},
    }
}

/// The echo servlet's body is the UTF-8 encoding of the `arg` argument, the
/// method and the `User-Agent` header, one after the other, where a missing
/// value adds nothing.
pub proof fn echo_body_is_request_text(
    arg: Option<Seq<char>>,
    method: Seq<char>,
    agent: Option<Seq<char>>,
)
    ensures
        body_of(echo_plan(arg, method, agent)) == encode_utf8(
            text_or_empty(arg) + method + text_or_empty(agent),
        ),
{
    let head = seq![
        ActionView::SetStatus(200),
        ActionView::SetHeader("Content-Type"@, "text/plain; charset=UTF-8"@),
    ];
    let m = seq![ActionView::Write(encode_utf8(method))];
    let tail = seq![ActionView::Flush];
    let a = write_if_present(arg);
    let u = write_if_present(agent);
    lemma_body_of_concat(head + a + m + u, tail);
    lemma_body_of_concat(head + a + m, u);
    lemma_body_of_concat(head + a, m);
    lemma_body_of_concat(head, a);
    lemma_body_of_concat(seq![head[0]], seq![head[1]]);
    assert(head =~= seq![head[0]] + seq![head[1]]);
    lemma_body_of_single(head[0]);
    lemma_body_of_single(head[1]);
    lemma_body_of_single(m[0]);
    lemma_body_of_single(tail[0]);
    lemma_body_of_write_if_present(arg);
    lemma_body_of_write_if_present(agent);
    lemma_encode_concat(text_or_empty(arg) + method, text_or_empty(agent));
    lemma_encode_concat(text_or_empty(arg), method);
    assert(body_of(echo_plan(arg, method, agent)) =~= encode_utf8(
        text_or_empty(arg) + method + text_or_empty(agent),
    ));
}

/// Every header that `plan` sets has a name and a value with no NUL, so
/// both can be handed to the host as C strings.
pub open spec fn headers_c_compatible(plan: Seq<ActionView>) -> bool {
    forall|i: int|
        0 <= i < plan.len() ==> (#[trigger] plan[i] matches ActionView::SetHeader(n, v) ==> no_nul_char(n)
            && no_nul_char(v))
}

/// Neither servlet ever asks the host to set a header whose name or value
/// holds a NUL, whatever the request.
pub proof fn servlet_headers_are_c_compatible(
    arg: Option<Seq<char>>,
    method: Seq<char>,
    agent: Option<Seq<char>>,
)
    ensures
        headers_c_compatible(hello_plan()),
        headers_c_compatible(echo_plan(arg, method, agent)),
{
    reveal_strlit("Content-Type");
    reveal_strlit("text/plain; charset=UTF-8");
    let name = "Content-Type"@;
    let value = "text/plain; charset=UTF-8"@;
    assert(no_nul_char(name));
    assert(no_nul_char(value));
    let head = seq![ActionView::SetStatus(200), ActionView::SetHeader(name, value)];
    let rest = write_if_present(arg) + seq![ActionView::Write(encode_utf8(method))]
        + write_if_present(agent) + seq![ActionView::Flush];
    assert(forall|i: int| 0 <= i < rest.len() ==> !(#[trigger] rest[i] is SetHeader));
    let plan = echo_plan(arg, method, agent);
    assert(plan =~= head + rest);
    assert forall|i: int| 0 <= i < plan.len() implies (#[trigger] plan[i] matches ActionView::SetHeader(
        n,
        v,
    ) ==> no_nul_char(n) && no_nul_char(v)) by {
        if i >= 2 {
            assert(plan[i] == rest[i - 2]);
        }
    }
}

} // verus!
