//! Outbound requests of the wire protocol: a request is a JSON array
//! `[command]` or `[command, params]`, where the command is one of `quotes`,
//! `orderBook`, `portfolio`, `orders`, `markets` and the params are the
//! instrument symbols it applies to. Also the login form the transport layer
//! posts to obtain a session.
use vstd::prelude::*;
use vstd::string::StringExecFns;

verus! {

/// The login form of the session handshake.
pub struct AuthMessage {
    pub login: String,
    pub password: String,
    pub remember_me: i32,
}

impl AuthMessage {
    pub fn new(login: &str, password: &str) -> (r: AuthMessage)
        ensures
            r.login@ == login@,
            r.password@ == password@,
            r.remember_me == 1,
    {
        AuthMessage { login: login.to_owned(), password: password.to_owned(), remember_me: 1 }
    }
}

/// What `serde_json` prints for a list of strings: a JSON array of JSON
/// strings, each properly quoted and escaped.
pub uninterp spec fn json_of_list(params: Seq<Seq<char>>) -> Seq<char>;

/// Relies on `serde_json::to_string`: serializing a `Vec<String>` depends on
/// the strings alone and cannot fail.
#[verifier::external_body]
fn json_string_list(params: &Vec<String>) -> (r: String)
    ensures
        r@ == json_of_list(params.deep_view()),
{
    serde_json::to_string(params).expect("serializing a list of strings cannot fail")
}

/// A double-quoted command, as it stands in the serialized request.
pub open spec fn quoted(cmd: Seq<char>) -> Seq<char> {
    seq!['"'] + cmd + seq!['"']
}

/// The serialized wire form of a request: `[command]`, or
/// `[command, params]` with the params as a JSON list of strings.
pub open spec fn spec_message(cmd: Seq<char>, params: Option<Seq<Seq<char>>>) -> Seq<char> {
    match params {
        Some(ps) => seq!['['] + quoted(cmd) + seq![','] + json_of_list(ps) + seq![']'],
        None => seq!['['] + quoted(cmd) + seq![']'],
    }
}

/// An outbound request to the broker.
pub struct Request {
    pub cmd: String,
    pub params: Option<Vec<String>>,
}

impl Request {
    /// The command is one the protocol knows; none of them needs escaping.
    pub open spec fn wf(self) -> bool {
        ||| self.cmd@ == "quotes"@
        ||| self.cmd@ == "orderBook"@
        ||| self.cmd@ == "portfolio"@
        ||| self.cmd@ == "orders"@
        ||| self.cmd@ == "markets"@
    }

    pub fn order_book(params: Vec<String>) -> (r: Request)
        ensures
            r.cmd@ == "orderBook"@,
            r.params matches Some(ps) && ps.deep_view() == params.deep_view(),
            r.wf(),
    {
        Request { cmd: "orderBook".to_owned(), params: Some(params) }
    }

    pub fn quotes(params: Vec<String>) -> (r: Request)
        ensures
            r.cmd@ == "quotes"@,
            r.params matches Some(ps) && ps.deep_view() == params.deep_view(),
            r.wf(),
    {
        Request { cmd: "quotes".to_owned(), params: Some(params) }
    }

    pub fn portfolio() -> (r: Request)
        ensures
            r.cmd@ == "portfolio"@,
            r.params is None,
            r.wf(),
    {
        Request { cmd: "portfolio".to_owned(), params: None }
    }

    pub fn orders() -> (r: Request)
        ensures
            r.cmd@ == "orders"@,
            r.params is None,
            r.wf(),
    {
        Request { cmd: "orders".to_owned(), params: None }
    }

    pub fn markets() -> (r: Request)
        ensures
            r.cmd@ == "markets"@,
            r.params is None,
            r.wf(),
    {
        Request { cmd: "markets".to_owned(), params: None }
    }

    /// The request's serialized wire form.
    pub fn message(&self) -> (r: String)
        requires
            self.wf(),
        ensures
            r@ == spec_message(
                self.cmd@,
                match self.params {
                    Some(ps) => Some(ps.deep_view()),
                    None => None,
                },
            ),
    {
        let mut out = String::new();
        out.append("[\"");
        out.append(self.cmd.as_str());
        match &self.params {
            Some(ps) => {
                out.append("\",");
                let list = json_string_list(ps);
                out.append(list.as_str());
                out.append("]");
                proof {
                    reveal_strlit("[\"");
                    reveal_strlit("\",");
                    reveal_strlit("]");
                    assert(out@ =~= seq!['['] + quoted(self.cmd@) + seq![','] + json_of_list(
                        ps.deep_view(),
                    ) + seq![']']);
                }
            },
            None => {
                out.append("\"]");
                proof {
                    reveal_strlit("[\"");
                    reveal_strlit("\"]");
                    assert(out@ =~= seq!['['] + quoted(self.cmd@) + seq![']']);
                }
            },
        }
        out
    }
}

/// Whether an order buys or sells.
#[derive(Debug, Clone, Copy, PartialEq, Eq, Structural)]
pub enum ActionType {
    Buy,
    Sell,
}

impl ActionType {
    pub open spec fn spec_ff_code(self) -> u32 {
        match self {
            ActionType::Buy => 1,
            ActionType::Sell => 3,
        }
    }

    /// The broker's numeric code for the action.
    pub fn ff_code(&self) -> (r: u32)
        ensures
            r == self.spec_ff_code(),
    {
        match self {
            ActionType::Buy => 1,
            ActionType::Sell => 3,
        }
    }
}

/// How an order is priced.
#[derive(Debug, Clone, Copy, PartialEq, Eq, Structural)]
pub enum OrderType {
    Market,
    Limit,
}

impl OrderType {
    pub open spec fn spec_ff_code(self) -> u32 {
        match self {
            OrderType::Market => 1,
            OrderType::Limit => 2,
        }
    }

    /// The broker's numeric code for the order type.
    pub fn ff_code(&self) -> (r: u32)
        ensures
            r == self.spec_ff_code(),
    {
        match self {
            OrderType::Market => 1,
            OrderType::Limit => 2,
        }
    }
}

/// How long an order stays working.
#[derive(Debug, Clone, Copy, PartialEq, Eq, Structural)]
pub enum Expirations {
    Day,
}

impl Expirations {
    pub open spec fn spec_ff_code(self) -> u32 {
        match self {
            Expirations::Day => 1,
        }
    }

    /// The broker's numeric code for the expiration.
    pub fn ff_code(&self) -> (r: u32)
        ensures
            r == self.spec_ff_code(),
    {
        match self {
            Expirations::Day => 1,
        }
    }
}

} // verus!
