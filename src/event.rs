//! Decoded post-creation events and the kinds of relation between posts.
use vstd::prelude::*;

verus! {

/// How a post refers to an earlier one.
#[derive(Clone, Copy, Debug, PartialEq, Eq, Structural)]
pub enum EdgeKind {
    Quote,
    Reply,
}

/// The stored name of an edge kind.
pub open spec fn kind_name(k: EdgeKind) -> Seq<char> {
    match k {
        EdgeKind::Quote => "quote"@,
        EdgeKind::Reply => "reply"@,
    }
}

impl EdgeKind {
    /// The name under which the kind is stored: `"quote"` or `"reply"`.
    pub fn name(&self) -> (r: String)
        ensures
            r@ == kind_name(*self),
    {
        match self {
            EdgeKind::Quote => String::from_str("quote"),
            EdgeKind::Reply => String::from_str("reply"),
        }
    }

    /// The kind stored under `name`, if it is one of the two names.
    pub fn parse(name: &str) -> (r: Option<EdgeKind>)
        ensures
            r matches Some(k) ==> kind_name(k) == name@,
            r is None ==> name@ != kind_name(EdgeKind::Quote) && name@ != kind_name(
                EdgeKind::Reply,
            ),
    {
        let n = String::from_str(name);
        if n == String::from_str("quote") {
            Some(EdgeKind::Quote)
        } else if n == String::from_str("reply") {
            Some(EdgeKind::Reply)
        } else {
            None
        }
    }
}

/// An optional string as an optional sequence of characters.
pub open spec fn opt_view(o: Option<String>) -> Option<Seq<char>> {
    match o {
        Some(s) => Some(s@),
        None => None,
    }
}

/// An instant as seconds and nanoseconds since the Unix epoch, in UTC.
#[derive(Clone, Copy, Debug, PartialEq, Eq, Structural)]
pub struct Timestamp {
    pub secs: i64,
    pub nanos: u32,
}

/// A post-creation event: where the post is stored and what it refers to.
#[derive(Clone, Debug)]
pub struct PostEvent {
    pub repo: String,
    pub path: String,
    pub text: String,
    pub created_at: Timestamp,
    /// URI of the post this one replies to.
    pub reply_parent: Option<String>,
    /// URI of the post this one quotes.
    pub quoted: Option<String>,
}

} // verus!
