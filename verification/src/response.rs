//! Reading a chat response and judging a transport outcome: what the
//! response's `choices` hold, and which error each kind of failure becomes.
//! The spec functions define the response grammar over character sequences;
//! each executable function returns exactly what its spec function says.

use vstd::prelude::*;

use crate::decode::entry_start;
use crate::decode::entry_start_exec;
use crate::decode::parse_string;
use crate::decode::parse_string_exec;
use crate::decode::skip_value;
use crate::decode::skip_value_exec;
use crate::decode::skip_ws;
use crate::decode::skip_ws_exec;
use crate::error::ErrorView;
use crate::error::MistralError;
use crate::message::ChatMessage;
use crate::message::MessageView;

verus! {

/// The text of an optional string, where one has been read.
pub open spec fn opt_text(o: Option<String>) -> Option<Seq<char>> {
    match o {
        Some(s) => Some(s@),
        None => None,
    }
}

/// The views of a run of messages, in order.
pub open spec fn messages_view(v: Seq<ChatMessage>) -> Seq<MessageView> {
    v.map_values(|m: ChatMessage| m@)
}

/// The members of one `message` object, entered at `i` (just after `{` when
/// `first`, just after a member otherwise), with the role and content texts
/// read so far: the completed message and the position after `}`. Each of
/// the two fields must appear exactly once, as a string; any other member is
/// skipped; a repeated or missing field fails the parse, as the original
/// decoding rejected it.
pub open spec fn message_members(
    s: Seq<char>,
    i: nat,
    first: bool,
    role: Option<Seq<char>>,
    content: Option<Seq<char>>,
) -> Option<(MessageView, nat)>
    decreases s.len() - i,
{
    let j = skip_ws(s, i);
    if j >= s.len() {
        None
    } else if s[j as int] == '}' {
        match (role, content) {
            (Some(r), Some(c)) => Some((MessageView { role: r, content: c }, j + 1)),
            _ => None,
        }
    } else {
        match entry_start(s, i, first) {
            None => None,
            Some(m) => match parse_string(s, m) {
                None => None,
                Some(key) => {
                    let k = skip_ws(s, key.1);
                    if k < s.len() && s[k as int] == ':' {
                        let v = skip_ws(s, k + 1);
                        if key.0 == "role"@ {
                            if role is Some {
                                None
                            } else {
                                match parse_string(s, v) {
                                    None => None,
                                    Some(rv) => {
                                        if i < rv.1 && rv.1 <= s.len() {
                                            message_members(s, rv.1, false, Some(rv.0), content)
                                        } else {
                                            None
                                        }
                                    },
                                }
                            }
                        } else if key.0 == "content"@ {
                            if content is Some {
                                None
                            } else {
                                match parse_string(s, v) {
                                    None => None,
                                    Some(cv) => {
                                        if i < cv.1 && cv.1 <= s.len() {
                                            message_members(s, cv.1, false, role, Some(cv.0))
                                        } else {
                                            None
                                        }
                                    },
                                }
                            }
                        } else {
                            match skip_value(s, v) {
                                None => None,
                                Some(e) => {
                                    if i < e && e <= s.len() {
                                        message_members(s, e, false, role, content)
                                    } else {
                                        None
                                    }
                                },
                            }
                        }
                    } else {
                        None
                    }
                },
            },
        }
    }
}

/// The members of one element of `choices`: its `message` object and the
/// position after `}`. The `message` member must appear exactly once and be
/// an object; any other member is skipped.
pub open spec fn choice_members(s: Seq<char>, i: nat, first: bool, msg: Option<MessageView>) -> Option<
    (MessageView, nat),
>
    decreases s.len() - i,
{
    let j = skip_ws(s, i);
    if j >= s.len() {
        None
    } else if s[j as int] == '}' {
        match msg {
            Some(mv) => Some((mv, j + 1)),
            None => None,
        }
    } else {
        match entry_start(s, i, first) {
            None => None,
            Some(m) => match parse_string(s, m) {
                None => None,
                Some(key) => {
                    let k = skip_ws(s, key.1);
                    if k < s.len() && s[k as int] == ':' {
                        let v = skip_ws(s, k + 1);
                        if key.0 == "message"@ {
                            if msg is Some {
                                None
                            } else if v < s.len() && s[v as int] == '{' {
                                match message_members(s, v + 1, true, None, None) {
                                    None => None,
                                    Some(p) => {
                                        if i < p.1 && p.1 <= s.len() {
                                            choice_members(s, p.1, false, Some(p.0))
                                        } else {
                                            None
                                        }
                                    },
                                }
                            } else {
                                None
                            }
                        } else {
                            match skip_value(s, v) {
                                None => None,
                                Some(e) => {
                                    if i < e && e <= s.len() {
                                        choice_members(s, e, false, msg)
                                    } else {
                                        None
                                    }
                                },
                            }
                        }
                    } else {
                        None
                    }
                },
            },
        }
    }
}

/// The elements of the `choices` array, entered just after `[` (when
/// `first`) or just after an element: the messages read so far extended to
/// the array's end, and the position after `]`. Every element must be a
/// choice object.
pub open spec fn choices_elements(s: Seq<char>, i: nat, first: bool, acc: Seq<MessageView>) -> Option<
    (Seq<MessageView>, nat),
>
    decreases s.len() - i,
{
    let j = skip_ws(s, i);
    if j >= s.len() {
        None
    } else if s[j as int] == ']' {
        Some((acc, j + 1))
    } else {
        match entry_start(s, i, first) {
            None => None,
            Some(m) => {
                if m < s.len() && s[m as int] == '{' {
                    match choice_members(s, m + 1, true, None) {
                        None => None,
                        Some(p) => {
                            if i < p.1 && p.1 <= s.len() {
                                choices_elements(s, p.1, false, acc.push(p.0))
                            } else {
                                None
                            }
                        },
                    }
                } else {
                    None
                }
            },
        }
    }
}

/// The members of the top response object: the `choices` member read as an
/// array of choice objects, exactly once, any other member skipped; the
/// messages and the position after `}`.
pub open spec fn response_members(
    s: Seq<char>,
    i: nat,
    first: bool,
    choices: Option<Seq<MessageView>>,
) -> Option<(Seq<MessageView>, nat)>
    decreases s.len() - i,
{
    let j = skip_ws(s, i);
    if j >= s.len() {
        None
    } else if s[j as int] == '}' {
        match choices {
            Some(cs) => Some((cs, j + 1)),
            None => None,
        }
    } else {
        match entry_start(s, i, first) {
            None => None,
            Some(m) => match parse_string(s, m) {
                None => None,
                Some(key) => {
                    let k = skip_ws(s, key.1);
                    if k < s.len() && s[k as int] == ':' {
                        let v = skip_ws(s, k + 1);
                        if key.0 == "choices"@ {
                            if choices is Some {
                                None
                            } else if v < s.len() && s[v as int] == '[' {
                                match choices_elements(s, v + 1, true, Seq::empty()) {
                                    None => None,
                                    Some(p) => {
                                        if i < p.1 && p.1 <= s.len() {
                                            response_members(s, p.1, false, Some(p.0))
                                        } else {
                                            None
                                        }
                                    },
                                }
                            } else {
                                None
                            }
                        } else {
                            match skip_value(s, v) {
                                None => None,
                                Some(e) => {
                                    if i < e && e <= s.len() {
                                        response_members(s, e, false, choices)
                                    } else {
                                        None
                                    }
                                },
                            }
                        }
                    } else {
                        None
                    }
                },
            },
        }
    }
}

/// The messages of a chat response read from a whole body: the message of
/// `choices[k]` for each `k`, in order. `None` where the text is not such a
/// JSON document.
pub open spec fn parse_response(s: Seq<char>) -> Option<Seq<MessageView>> {
    let j = skip_ws(s, 0);
    if j < s.len() && s[j as int] == '{' {
        match response_members(s, j + 1, true, None) {
            None => None,
            Some(p) => {
                if skip_ws(s, p.1) == s.len() {
                    Some(p.0)
                } else {
                    None
                }
            },
        }
    } else {
        None
    }
}

/// The view of an optional message, where one has been read.
pub open spec fn opt_message(o: Option<ChatMessage>) -> Option<MessageView> {
    match o {
        Some(m) => Some(m@),
        None => None,
    }
}

/// The views of an optional run of messages, where one has been read.
pub open spec fn opt_messages(o: Option<Vec<ChatMessage>>) -> Option<Seq<MessageView>> {
    match o {
        Some(v) => Some(messages_view(v@)),
        None => None,
    }
}

fn str_eq_chars(a: &str, b: &str) -> (r: bool)
    ensures
        r == (a@ == b@),
{
    let na = a.unicode_len();
    let nb = b.unicode_len();
    if na != nb {
        return false;
    }
    let mut i: usize = 0;
    while i < na
        invariant
            na == a@.len(),
            nb == b@.len(),
            na == nb,
            i <= na,
            forall|k: int| 0 <= k < i ==> a@[k] == b@[k],
        decreases na - i,
    {
        if a.get_char(i) != b.get_char(i) {
            return false;
        }
        i = i + 1;
    }
    proof {
        assert(a@ =~= b@);
    }
    true
}

fn message_members_exec(
    s: &str,
    n: usize,
    i: usize,
    first: bool,
    role: Option<String>,
    content: Option<String>,
) -> (r: Option<(ChatMessage, usize)>)
    requires
        n == s@.len(),
        i <= n,
    ensures
        (r is None <==> message_members(s@, i as nat, first, opt_text(role), opt_text(content))
            is None),
        r matches Some(p) ==> message_members(s@, i as nat, first, opt_text(role), opt_text(content))
            == Some((p.0@, p.1 as nat)) && i < p.1 <= n,
    decreases n - i,
{
    let j = skip_ws_exec(s, n, i);
    if j >= n {
        return None;
    }
    if s.get_char(j) == '}' {
        match (role, content) {
            (Some(r), Some(c)) => {
                return Some((ChatMessage { role: r, content: c }, j + 1));
            },
            _ => {
                return None;
            },
        }
    }
    let m = match entry_start_exec(s, n, i, first) {
        None => {
            return None;
        },
        Some(m) => m,
    };
    let key = match parse_string_exec(s, n, m) {
        None => {
            return None;
        },
        Some(p) => p,
    };
    let k = skip_ws_exec(s, n, key.1);
    if !(k < n && s.get_char(k) == ':') {
        return None;
    }
    let v = skip_ws_exec(s, n, k + 1);
    if str_eq_chars(key.0.as_str(), "role") {
        if role.is_some() {
            return None;
        }
        let rv = match parse_string_exec(s, n, v) {
            None => {
                return None;
            },
            Some(p) => p,
        };
        message_members_exec(s, n, rv.1, false, Some(rv.0), content)
    } else if str_eq_chars(key.0.as_str(), "content") {
        if content.is_some() {
            return None;
        }
        let cv = match parse_string_exec(s, n, v) {
            None => {
                return None;
            },
            Some(p) => p,
        };
        message_members_exec(s, n, cv.1, false, role, Some(cv.0))
    } else {
        let e = match skip_value_exec(s, n, v) {
            None => {
                return None;
            },
            Some(e) => e,
        };
        message_members_exec(s, n, e, false, role, content)
    }
}

fn choice_members_exec(s: &str, n: usize, i: usize, first: bool, msg: Option<ChatMessage>) -> (r:
    Option<(ChatMessage, usize)>)
    requires
        n == s@.len(),
        i <= n,
    ensures
        (r is None <==> choice_members(s@, i as nat, first, opt_message(msg)) is None),
        r matches Some(p) ==> choice_members(s@, i as nat, first, opt_message(msg)) == Some(
            (p.0@, p.1 as nat),
        ) && i < p.1 <= n,
    decreases n - i,
{
    let j = skip_ws_exec(s, n, i);
    if j >= n {
        return None;
    }
    if s.get_char(j) == '}' {
        match msg {
            Some(mv) => {
                return Some((mv, j + 1));
            },
            None => {
                return None;
            },
        }
    }
    let m = match entry_start_exec(s, n, i, first) {
        None => {
            return None;
        },
        Some(m) => m,
    };
    let key = match parse_string_exec(s, n, m) {
        None => {
            return None;
        },
        Some(p) => p,
    };
    let k = skip_ws_exec(s, n, key.1);
    if !(k < n && s.get_char(k) == ':') {
        return None;
    }
    let v = skip_ws_exec(s, n, k + 1);
    if str_eq_chars(key.0.as_str(), "message") {
        if msg.is_some() {
            return None;
        }
        if !(v < n && s.get_char(v) == '{') {
            return None;
        }
        let p = match message_members_exec(s, n, v + 1, true, None, None) {
            None => {
                return None;
            },
            Some(p) => p,
        };
        choice_members_exec(s, n, p.1, false, Some(p.0))
    } else {
        let e = match skip_value_exec(s, n, v) {
            None => {
                return None;
            },
            Some(e) => e,
        };
        choice_members_exec(s, n, e, false, msg)
    }
}

fn choices_elements_exec(s: &str, n: usize, i: usize, first: bool, acc: Vec<ChatMessage>) -> (r:
    Option<(Vec<ChatMessage>, usize)>)
    requires
        n == s@.len(),
        i <= n,
    ensures
        (r is None <==> choices_elements(s@, i as nat, first, messages_view(acc@)) is None),
        r matches Some(p) ==> choices_elements(s@, i as nat, first, messages_view(acc@)) == Some(
            (messages_view(p.0@), p.1 as nat),
        ) && i < p.1 <= n,
    decreases n - i,
{
    let j = skip_ws_exec(s, n, i);
    if j >= n {
        return None;
    }
    if s.get_char(j) == ']' {
        return Some((acc, j + 1));
    }
    let m = match entry_start_exec(s, n, i, first) {
        None => {
            return None;
        },
        Some(m) => m,
    };
    if !(m < n && s.get_char(m) == '{') {
        return None;
    }
    let p = match choice_members_exec(s, n, m + 1, true, None) {
        None => {
            return None;
        },
        Some(p) => p,
    };
    let ghost acc0 = acc@;
    let mut acc2 = acc;
    acc2.push(p.0);
    proof {
        assert(messages_view(acc2@) =~= messages_view(acc0).push(p.0@));
    }
    choices_elements_exec(s, n, p.1, false, acc2)
}

fn response_members_exec(
    s: &str,
    n: usize,
    i: usize,
    first: bool,
    choices: Option<Vec<ChatMessage>>,
) -> (r: Option<(Vec<ChatMessage>, usize)>)
    requires
        n == s@.len(),
        i <= n,
    ensures
        (r is None <==> response_members(s@, i as nat, first, opt_messages(choices)) is None),
        r matches Some(p) ==> response_members(s@, i as nat, first, opt_messages(choices)) == Some(
            (messages_view(p.0@), p.1 as nat),
        ) && i < p.1 <= n,
    decreases n - i,
{
    let j = skip_ws_exec(s, n, i);
    if j >= n {
        return None;
    }
    if s.get_char(j) == '}' {
        match choices {
            Some(cs) => {
                return Some((cs, j + 1));
            },
            None => {
                return None;
            },
        }
    }
    let m = match entry_start_exec(s, n, i, first) {
        None => {
            return None;
        },
        Some(m) => m,
    };
    let key = match parse_string_exec(s, n, m) {
        None => {
            return None;
        },
        Some(p) => p,
    };
    let k = skip_ws_exec(s, n, key.1);
    if !(k < n && s.get_char(k) == ':') {
        return None;
    }
    let v = skip_ws_exec(s, n, k + 1);
    if str_eq_chars(key.0.as_str(), "choices") {
        if choices.is_some() {
            return None;
        }
        if !(v < n && s.get_char(v) == '[') {
            return None;
        }
        let acc: Vec<ChatMessage> = Vec::new();
        proof {
            assert(messages_view(acc@) =~= Seq::<MessageView>::empty());
        }
        let p = match choices_elements_exec(s, n, v + 1, true, acc) {
            None => {
                return None;
            },
            Some(p) => p,
        };
        response_members_exec(s, n, p.1, false, Some(p.0))
    } else {
        let e = match skip_value_exec(s, n, v) {
            None => {
                return None;
            },
            Some(e) => e,
        };
        response_members_exec(s, n, e, false, choices)
    }
}

/// The whole body parsed as a chat response: the `choices` messages in
/// order, or `None` where the body is not such a JSON document; exactly
/// [`parse_response`] of the text.
pub fn parse_chat_response(body: &str) -> (r: Option<Vec<ChatMessage>>)
    ensures
        (r is None <==> parse_response(body@) is None),
        r matches Some(v) ==> parse_response(body@) == Some(messages_view(v@)),
{
    let n = body.unicode_len();
    let j = skip_ws_exec(body, n, 0);
    if !(j < n && body.get_char(j) == '{') {
        return None;
    }
    let p = match response_members_exec(body, n, j + 1, true, None) {
        None => {
            return None;
        },
        Some(p) => p,
    };
    if skip_ws_exec(body, n, p.1) == n {
        Some(p.0)
    } else {
        None
    }
}

/// The result decided from an HTTP response, over views: a non-success
/// status fails as `ApiError` carrying the raw body verbatim; a success body
/// that does not parse as a chat response fails as `NetworkError` with the
/// fixed decode description; a parsed response with no choices fails as
/// `ApiError` with the fixed text; otherwise the first choice's message
/// content is returned, unmodified.
pub open spec fn response_result(status: u16, body: Seq<char>) -> Result<Seq<char>, ErrorView> {
    if !(200 <= status && status <= 299) {
        Err(ErrorView::ApiError(body))
    } else {
        match parse_response(body) {
            None => Err(ErrorView::NetworkError("error decoding response body"@)),
            Some(msgs) => {
                if msgs.len() == 0 {
                    Err(ErrorView::ApiError("No response from AI"@))
                } else {
                    Ok(msgs[0].content)
                }
            },
        }
    }
}

/// A call's result over views.
pub open spec fn result_view(r: Result<String, MistralError>) -> Result<Seq<char>, ErrorView> {
    match r {
        Ok(s) => Ok(s@),
        Err(e) => Err(e@),
    }
}

/// Decides the call's result from the transport's HTTP response: exactly
/// [`response_result`] of the status and the body.
pub fn interpret_response(status: u16, body: String) -> (r: Result<String, MistralError>)
    ensures
        result_view(r) == response_result(status, body@),
{
    if status < 200 || status > 299 {
        return Err(MistralError::ApiError(body));
    }
    match parse_chat_response(body.as_str()) {
        None => Err(
            MistralError::NetworkError(String::from_str("error decoding response body")),
        ),
        Some(mut msgs) => {
            if msgs.len() == 0 {
                Err(MistralError::ApiError(String::from_str("No response from AI")))
            } else {
                let first = msgs.remove(0);
                Ok(first.content)
            }
        },
    }
}

/// What the transport handed back for one POST: an HTTP response, whatever
/// its status, or the transport's own failure (connection, DNS, timeout,
/// TLS, a body that could not be read) with its description.
pub enum TransportOutcome {
    Response { status: u16, body: String },
    Failure { description: String },
}

/// Spec-level picture of a [`TransportOutcome`].
pub enum OutcomeView {
    Response { status: u16, body: Seq<char> },
    Failure { description: Seq<char> },
}

impl View for TransportOutcome {
    type V = OutcomeView;

    open spec fn view(&self) -> OutcomeView {
        match self {
            TransportOutcome::Response { status, body } => OutcomeView::Response {
                status: *status,
                body: body@,
            },
            TransportOutcome::Failure { description } => OutcomeView::Failure {
                description: description@,
            },
        }
    }
}

/// The result decided from any transport outcome: a transport failure is
/// `NetworkError` carrying the transport's description, passed through
/// unreinterpreted; a response is judged by [`response_result`].
pub open spec fn outcome_result(o: OutcomeView) -> Result<Seq<char>, ErrorView> {
    match o {
        OutcomeView::Response { status, body } => response_result(status, body),
        OutcomeView::Failure { description } => Err(ErrorView::NetworkError(description)),
    }
}

/// Decides the call's result from whatever the transport handed back:
/// exactly [`outcome_result`] of it.
pub fn interpret_outcome(outcome: TransportOutcome) -> (r: Result<String, MistralError>)
    ensures
        result_view(r) == outcome_result(outcome@),
{
    match outcome {
        TransportOutcome::Response { status, body } => interpret_response(status, body),
        TransportOutcome::Failure { description } => Err(
            MistralError::NetworkError(description),
        ),
    }
}

/// A response with a non-success status fails as `ApiError` carrying the raw
/// body, whatever the body holds.
pub proof fn lemma_error_status_is_api_error(status: u16, body: Seq<char>)
    requires
        !(200 <= status && status <= 299),
    ensures
        response_result(status, body) == Err::<Seq<char>, ErrorView>(ErrorView::ApiError(body)),
{
}

/// A transport failure becomes `NetworkError` carrying the transport's own
/// description, never `ApiError`.
pub proof fn lemma_transport_failure_is_network_error(description: Seq<char>)
    ensures
        outcome_result(OutcomeView::Failure { description }) == Err::<Seq<char>, ErrorView>(
            ErrorView::NetworkError(description),
        ),
{
}

/// A success response whose `choices` list is empty fails as `ApiError`
/// carrying exactly the fixed text.
pub proof fn lemma_empty_choices_is_api_error(status: u16, body: Seq<char>)
    requires
        200 <= status && status <= 299,
        parse_response(body) == Some(Seq::<MessageView>::empty()),
    ensures
        response_result(status, body) == Err::<Seq<char>, ErrorView>(
            ErrorView::ApiError("No response from AI"@),
        ),
{
}

/// A success response with at least one choice yields exactly the first
/// choice's message content, unmodified.
pub proof fn lemma_success_returns_first_content(status: u16, body: Seq<char>, msgs: Seq<MessageView>)
    requires
        200 <= status && status <= 299,
        parse_response(body) == Some(msgs),
        msgs.len() > 0,
    ensures
        response_result(status, body) == Ok::<Seq<char>, ErrorView>(msgs[0].content),
{
}

} // verus!
