//! The receiving side of the transport: what a navigation of a tracked
//! window means.
//!
//! A navigation whose address begins with the receiving origin is never
//! carried out. It is read instead: its address is parsed
//! and the pairs of its query say what the page reports: a payload of goals
//! under `data`, a sample of the text length under `len`, a captured page
//! under `page`, or a fault under `fault`. The values are taken as the query
//! gives them: what was escaped once on the way out has been resolved once
//! on the way in. Any other navigation is let through.

use vstd::prelude::*;
use crate::chars::{begins_with, chars_of, same_text, starts_with};
use crate::emit::receiving_origin;
use crate::ident::{decimal, push_decimal};
use crate::strategy::{PageSnapshot, PageView};
use crate::wire::{parse_length, parse_page, parsed_length, parsed_page};

verus! {

/// The pairs of key and value in the query of the address `url`, as
/// `url::Url::parse` and `url::Url::query_pairs` give them; `None` where the
/// address does not parse.
pub uninterp spec fn url_query_pairs(url: Seq<char>) -> Option<Seq<(Seq<char>, Seq<char>)>>;

/// The pairs as pairs of character sequences.
pub open spec fn pairs_view(pairs: Seq<(String, String)>) -> Seq<(Seq<char>, Seq<char>)> {
    Seq::new(pairs.len(), |i: int| (pairs[i].0@, pairs[i].1@))
}

/// Parses the address with `url::Url::parse` and reads the pairs of its
/// query with `url::Url::query_pairs`, which resolves their percent escapes
/// as those of a form. The contract claims only that the outcome is a
/// function of the address: the pairs are the ones named `url_query_pairs`,
/// and there are none exactly when the address does not parse.
#[verifier::external_body]
fn query_pairs_of(url: &str) -> (pairs: Option<Vec<(String, String)>>)
    ensures
        match pairs {
            Some(p) => url_query_pairs(url@) == Some(pairs_view(p@)),
            None => url_query_pairs(url@) is None,
        },
{
    match url::Url::parse(url) {
        Ok(parsed) => Some(
            parsed.query_pairs().map(|(k, v)| (k.into_owned(), v.into_owned())).collect(),
        ),
        Err(_) => None,
    }
}

/// What is done with a navigation.
#[derive(Clone, Debug, PartialEq, Eq)]
pub enum Interception {
    /// The navigation is none of ours: let it through.
    Allow,
    /// The navigation was meant for the receiving side: stop it, and hand on
    /// what it carried, if anything.
    Block { carried: Option<String> },
}

/// An interception as contracts see it.
pub enum InterceptionView {
    Allow,
    Block { carried: Option<Seq<char>> },
}

impl View for Interception {
    type V = InterceptionView;

    open spec fn view(&self) -> InterceptionView {
        match self {
            Interception::Allow => InterceptionView::Allow,
            Interception::Block { carried } => InterceptionView::Block {
                carried: match carried {
                    Some(c) => Some(c@),
                    None => None,
                },
            },
        }
    }
}

/// What the page reports to the receiving side.
#[derive(Clone, Debug, PartialEq, Eq)]
pub enum SyncMessage {
    /// The goals, as the payload that is handed on.
    Payload(String),
    /// A sample of the length of the visible text.
    TextLength(usize),
    /// The page as it was captured.
    Page(PageSnapshot),
    /// Something went wrong on the page.
    Fault,
    /// Nothing that the receiving side knows.
    Nothing,
}

/// A message as contracts see it.
pub enum SyncMessageView {
    Payload(Seq<char>),
    TextLength(usize),
    Page(PageView),
    Fault,
    Nothing,
}

impl View for SyncMessage {
    type V = SyncMessageView;

    open spec fn view(&self) -> SyncMessageView {
        match self {
            SyncMessage::Payload(p) => SyncMessageView::Payload(p@),
            SyncMessage::TextLength(n) => SyncMessageView::TextLength(*n),
            SyncMessage::Page(page) => SyncMessageView::Page(page@),
            SyncMessage::Fault => SyncMessageView::Fault,
            SyncMessage::Nothing => SyncMessageView::Nothing,
        }
    }
}

/// What is done with a navigation of the sync window.
#[derive(Clone, Debug, PartialEq, Eq)]
pub enum SyncNavigation {
    /// The navigation is none of ours: let it through.
    Allow,
    /// The navigation was meant for the receiving side: stop it, and act on
    /// what the page reports.
    Block { message: SyncMessage },
}

/// A decision on a navigation as contracts see it.
pub enum SyncNavigationView {
    Allow,
    Block { message: SyncMessageView },
}

impl View for SyncNavigation {
    type V = SyncNavigationView;

    open spec fn view(&self) -> SyncNavigationView {
        match self {
            SyncNavigation::Allow => SyncNavigationView::Allow,
            SyncNavigation::Block { message } => SyncNavigationView::Block { message: message@ },
        }
    }
}

/// The value of the first pair at or after `from` whose key is `key`.
pub open spec fn first_value(pairs: Seq<(Seq<char>, Seq<char>)>, key: Seq<char>, from: int) -> Option<
    Seq<char>,
>
    decreases pairs.len() - from,
{
    if from < 0 || from >= pairs.len() {
        None
    } else if pairs[from].0 == key {
        Some(pairs[from].1)
    } else {
        first_value(pairs, key, from + 1)
    }
}

/// The key under which the payload travels.
pub open spec fn payload_key() -> Seq<char> {
    "data"@
}

/// The key under which an authorization code travels.
pub open spec fn code_key() -> Seq<char> {
    "code"@
}

/// The origin to which an authorization is redirected: this machine, at
/// `port`.
pub open spec fn redirect_origin(port: u16) -> Seq<char> {
    "http://localhost:"@ + decimal(port as nat)
}

/// What a navigation to `url` carries under `key`, given the pairs of its
/// query.
pub open spec fn carried_value(
    pairs: Option<Seq<(Seq<char>, Seq<char>)>>,
    key: Seq<char>,
) -> Option<Seq<char>> {
    match pairs {
        Some(ps) => first_value(ps, key, 0),
        None => None,
    }
}

/// The key under which a sample of the text length travels.
pub open spec fn length_key() -> Seq<char> {
    "len"@
}

/// The key under which a captured page travels.
pub open spec fn page_key() -> Seq<char> {
    "page"@
}

/// The key under which a fault is reported.
pub open spec fn fault_key() -> Seq<char> {
    "fault"@
}

/// What the page reports by the pairs `pairs`: the first of payload, text
/// length, captured page and fault for which there is a key. A length or a
/// page that is not in form is a fault.
pub open spec fn message_of(pairs: Seq<(Seq<char>, Seq<char>)>) -> SyncMessageView {
    if let Some(raw) = first_value(pairs, payload_key(), 0) {
        SyncMessageView::Payload(raw)
    } else if let Some(digits) = first_value(pairs, length_key(), 0) {
        match parsed_length(digits) {
            Some(n) => SyncMessageView::TextLength(n as usize),
            None => SyncMessageView::Fault,
        }
    } else if let Some(report) = first_value(pairs, page_key(), 0) {
        match parsed_page(report) {
            Some(page) => SyncMessageView::Page(page),
            None => SyncMessageView::Fault,
        }
    } else if first_value(pairs, fault_key(), 0) is Some {
        SyncMessageView::Fault
    } else {
        SyncMessageView::Nothing
    }
}

/// What is done with a navigation of the sync window to `url`: it is
/// stopped exactly when `url` begins with the receiving origin.
pub open spec fn sync_navigation(url: Seq<char>) -> SyncNavigationView {
    if starts_with(url, receiving_origin()) {
        SyncNavigationView::Block {
            message: match url_query_pairs(url) {
                Some(pairs) => message_of(pairs),
                None => SyncMessageView::Nothing,
            },
        }
    } else {
        SyncNavigationView::Allow
    }
}

/// What is done with a navigation of the sign-in window to `url`: it is
/// stopped exactly when `url` begins with the redirect origin at `port`.
pub open spec fn auth_interception(url: Seq<char>, port: u16) -> InterceptionView {
    if starts_with(url, redirect_origin(port)) {
        InterceptionView::Block { carried: carried_value(url_query_pairs(url), code_key()) }
    } else {
        InterceptionView::Allow
    }
}

/// The value of the first pair whose key is `key`.
pub fn value_of(pairs: &Vec<(String, String)>, key: &str) -> (value: Option<String>)
    ensures
        match value {
            Some(v) => first_value(pairs_view(pairs@), key@, 0) == Some(v@),
            None => first_value(pairs_view(pairs@), key@, 0) is None,
        },
{
    let ghost ps = pairs_view(pairs@);
    let mut i: usize = 0;
    while i < pairs.len()
        invariant
            i <= pairs.len(),
            ps == pairs_view(pairs@),
            first_value(ps, key@, i as int) == first_value(ps, key@, 0),
        decreases pairs.len() - i,
    {
        if same_text(pairs[i].0.as_str(), key) {
            return Some(pairs[i].1.clone());
        }
        i += 1;
    }
    None
}

/// Reads what the page reports from the pairs of a query.
pub fn read_message(pairs: &Vec<(String, String)>) -> (message: SyncMessage)
    ensures
        message@ == message_of(pairs_view(pairs@)),
{
    if let Some(raw) = value_of(pairs, "data") {
        return SyncMessage::Payload(raw);
    }
    if let Some(digits) = value_of(pairs, "len") {
        return match parse_length(digits.as_str()) {
            Some(n) => SyncMessage::TextLength(n),
            None => SyncMessage::Fault,
        };
    }
    if let Some(report) = value_of(pairs, "page") {
        return match parse_page(report.as_str()) {
            Some(page) => SyncMessage::Page(page),
            None => SyncMessage::Fault,
        };
    }
    if let Some(_) = value_of(pairs, "fault") {
        return SyncMessage::Fault;
    }
    SyncMessage::Nothing
}

/// Reads a navigation of the sync window: one whose address begins with the
/// receiving origin is stopped and what it reports handed on, any other is
/// let through.
pub fn intercept_sync_navigation(url: &str) -> (r: SyncNavigation)
    ensures
        r@ == sync_navigation(url@),
{
    let v = chars_of(url);
    let origin = chars_of("http://localhost:19837");
    if !begins_with(v.as_slice(), origin.as_slice()) {
        return SyncNavigation::Allow;
    }
    match query_pairs_of(url) {
        Some(pairs) => SyncNavigation::Block { message: read_message(&pairs) },
        None => SyncNavigation::Block { message: SyncMessage::Nothing },
    }
}

/// Reads a navigation of the sign-in window: one whose address begins with
/// the redirect origin at `port` is stopped and its authorization code
/// handed on, any other is let through.
pub fn intercept_auth_navigation(url: &str, port: u16) -> (r: Interception)
    ensures
        r@ == auth_interception(url@, port),
{
    let v = chars_of(url);
    let mut origin_text = "http://localhost:".to_owned();
    push_decimal(&mut origin_text, port as usize);
    let origin = chars_of(origin_text.as_str());
    if !begins_with(v.as_slice(), origin.as_slice()) {
        return Interception::Allow;
    }
    let code = match query_pairs_of(url) {
        Some(pairs) => value_of(&pairs, "code"),
        None => None,
    };
    Interception::Block { carried: code }
}

} // verus!
