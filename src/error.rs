//! Grammar errors: each carries the client's tag and a reason.
use vstd::prelude::*;
use vstd::string::StringExecFns;

verus! {

/// Why a request's arguments were refused.
#[derive(Debug, PartialEq, Eq)]
pub enum Reason {
    MissingArguments,
    InvalidMailboxName,
    ExpectedParenthesis,
    InvalidStatusArgument,
    InvalidStatusOption(Vec<u8>),
    NoStatusItems,
}

/// The mathematical value of a [`Reason`].
pub enum ReasonView {
    MissingArguments,
    InvalidMailboxName,
    ExpectedParenthesis,
    InvalidStatusArgument,
    InvalidStatusOption(Seq<u8>),
    NoStatusItems,
}

impl View for Reason {
    type V = ReasonView;

    open spec fn view(&self) -> ReasonView {
        match self {
            Reason::MissingArguments => ReasonView::MissingArguments,
            Reason::InvalidMailboxName => ReasonView::InvalidMailboxName,
            Reason::ExpectedParenthesis => ReasonView::ExpectedParenthesis,
            Reason::InvalidStatusArgument => ReasonView::InvalidStatusArgument,
            Reason::InvalidStatusOption(v) => ReasonView::InvalidStatusOption(v@),
            Reason::NoStatusItems => ReasonView::NoStatusItems,
        }
    }
}

/// What `String::from_utf8_lossy` makes of some bytes: their characters, with
/// each ill-formed sequence replaced by U+FFFD.
pub uninterp spec fn lossy_text(bytes: Seq<u8>) -> Seq<char>;

/// Relies on `String::from_utf8_lossy`: well-formed UTF-8 is decoded as it is,
/// and ill-formed sequences become U+FFFD.
#[verifier::external_body]
fn string_from_utf8_lossy(bytes: &[u8]) -> (r: String)
    ensures
        r@ == lossy_text(bytes@),
        vstd::utf8::valid_utf8(bytes@) ==> r@ == vstd::utf8::decode_utf8(bytes@),
{
    String::from_utf8_lossy(bytes).into_owned()
}

/// The human-readable text of a reason.
pub open spec fn reason_text(r: ReasonView) -> Seq<char> {
    match r {
        ReasonView::MissingArguments => "Missing arguments."@,
        ReasonView::InvalidMailboxName => "Invalid mailbox name."@,
        ReasonView::ExpectedParenthesis => "Expected parenthesis after mailbox name."@,
        ReasonView::InvalidStatusArgument => "Invalid status return option argument."@,
        ReasonView::InvalidStatusOption(v) => "Invalid status option '"@ + lossy_text(v)
            + "'."@,
        ReasonView::NoStatusItems => "At least one status item is required."@,
    }
}

impl Reason {
    /// The human-readable text of this reason.
    pub fn message(&self) -> (r: String)
        ensures
            r@ == reason_text(self@),
    {
        match self {
            Reason::MissingArguments => String::from_str("Missing arguments."),
            Reason::InvalidMailboxName => String::from_str("Invalid mailbox name."),
            Reason::ExpectedParenthesis => String::from_str(
                "Expected parenthesis after mailbox name.",
            ),
            Reason::InvalidStatusArgument => String::from_str(
                "Invalid status return option argument.",
            ),
            Reason::InvalidStatusOption(v) => {
                let text = string_from_utf8_lossy(v.as_slice());
                let r = String::from_str("Invalid status option '");
                let r = r.concat(text.as_str());
                r.concat("'.")
            },
            Reason::NoStatusItems => String::from_str("At least one status item is required."),
        }
    }
}

/// A request whose arguments were refused, with the client's tag.
#[derive(Debug, PartialEq, Eq)]
pub struct BadRequest {
    pub tag: String,
    pub reason: Reason,
}

impl BadRequest {
    /// The human-readable text of the refusal.
    pub fn message(&self) -> (r: String)
        ensures
            r@ == reason_text(self.reason@),
    {
        self.reason.message()
    }
}

} // verus!
