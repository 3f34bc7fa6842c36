//! The STATUS command: its status items and its argument grammar.
use vstd::prelude::*;

use vstd::utf8::{decode_utf8, valid_utf8};

use crate::error::{BadRequest, Reason, ReasonView};
use crate::keyword::{eq_ignore_case, matches_ignore_case};
use crate::text::{copy_bytes, string_from_utf8};
use crate::token::{Lexeme, Request, RequestView, Token};
use crate::utf7::{mailbox_text, utf7_maybe_decode, ProtocolVersion};

verus! {

/// One of the fixed attributes that STATUS reports on a mailbox.
#[derive(Clone, Copy, Debug, PartialEq, Eq, Structural)]
pub enum Status {
    Messages,
    UidNext,
    UidValidity,
    Unseen,
    Deleted,
    Size,
    HighestModSeq,
    MailboxId,
    Recent,
    DeletedStorage,
}

/// The keyword `MESSAGES`.
pub open spec fn word_messages() -> Seq<u8> {
    seq![77u8, 69u8, 83u8, 83u8, 65u8, 71u8, 69u8, 83u8]
}

/// The keyword `UIDNEXT`.
pub open spec fn word_uidnext() -> Seq<u8> {
    seq![85u8, 73u8, 68u8, 78u8, 69u8, 88u8, 84u8]
}

/// The keyword `UIDVALIDITY`.
pub open spec fn word_uidvalidity() -> Seq<u8> {
    seq![85u8, 73u8, 68u8, 86u8, 65u8, 76u8, 73u8, 68u8, 73u8, 84u8, 89u8]
}

/// The keyword `UNSEEN`.
pub open spec fn word_unseen() -> Seq<u8> {
    seq![85u8, 78u8, 83u8, 69u8, 69u8, 78u8]
}

/// The keyword `DELETED`.
pub open spec fn word_deleted() -> Seq<u8> {
    seq![68u8, 69u8, 76u8, 69u8, 84u8, 69u8, 68u8]
}

/// The keyword `SIZE`.
pub open spec fn word_size() -> Seq<u8> {
    seq![83u8, 73u8, 90u8, 69u8]
}

/// The keyword `HIGHESTMODSEQ`.
pub open spec fn word_highestmodseq() -> Seq<u8> {
    seq![72u8, 73u8, 71u8, 72u8, 69u8, 83u8, 84u8, 77u8, 79u8, 68u8, 83u8, 69u8, 81u8]
}

/// The keyword `MAILBOXID`.
pub open spec fn word_mailboxid() -> Seq<u8> {
    seq![77u8, 65u8, 73u8, 76u8, 66u8, 79u8, 88u8, 73u8, 68u8]
}

/// The keyword `RECENT`.
pub open spec fn word_recent() -> Seq<u8> {
    seq![82u8, 69u8, 67u8, 69u8, 78u8, 84u8]
}

/// The keyword `DELETED-STORAGE`.
pub open spec fn word_deleted_storage() -> Seq<u8> {
    seq![68u8, 69u8, 76u8, 69u8, 84u8, 69u8, 68u8, 45u8, 83u8, 84u8, 79u8, 82u8, 65u8, 71u8, 69u8]
}

/// The status item that `value` names, ignoring ASCII case, if any.
pub open spec fn status_of(value: Seq<u8>) -> Option<Status> {
    if eq_ignore_case(value, word_messages()) {
        Some(Status::Messages)
    } else if eq_ignore_case(value, word_uidnext()) {
        Some(Status::UidNext)
    } else if eq_ignore_case(value, word_uidvalidity()) {
        Some(Status::UidValidity)
    } else if eq_ignore_case(value, word_unseen()) {
        Some(Status::Unseen)
    } else if eq_ignore_case(value, word_deleted()) {
        Some(Status::Deleted)
    } else if eq_ignore_case(value, word_size()) {
        Some(Status::Size)
    } else if eq_ignore_case(value, word_highestmodseq()) {
        Some(Status::HighestModSeq)
    } else if eq_ignore_case(value, word_mailboxid()) {
        Some(Status::MailboxId)
    } else if eq_ignore_case(value, word_recent()) {
        Some(Status::Recent)
    } else if eq_ignore_case(value, word_deleted_storage()) {
        Some(Status::DeletedStorage)
    } else {
        None
    }
}

impl Status {
    /// Reads the status item that `value` spells, ignoring ASCII case; any
    /// other word is refused, naming it.
    pub fn parse(value: &[u8]) -> (r: Result<Status, Reason>)
        ensures
            match status_of(value@) {
                Some(st) => r == Ok::<Status, Reason>(st),
                None => r is Err && r->Err_0@ == ReasonView::InvalidStatusOption(value@),
            },
    {
        match Status::lookup(value) {
            Some(st) => Ok(st),
            None => Err(Reason::InvalidStatusOption(copy_bytes(value))),
        }
    }

    /// The status item that `value` spells, ignoring ASCII case, if any.
    fn lookup(value: &[u8]) -> (r: Option<Status>)
        ensures
            r == status_of(value@),
    {
        match value.len() {
            4 => {
                let w: Vec<u8> = vec![83u8, 73u8, 90u8, 69u8];
                assert(w@ == word_size());
                if matches_ignore_case(value, w.as_slice()) {
                    return Some(Status::Size);
                }
            },
            6 => {
                let w: Vec<u8> = vec![85u8, 78u8, 83u8, 69u8, 69u8, 78u8];
                assert(w@ == word_unseen());
                if matches_ignore_case(value, w.as_slice()) {
                    return Some(Status::Unseen);
                }
                let w: Vec<u8> = vec![82u8, 69u8, 67u8, 69u8, 78u8, 84u8];
                assert(w@ == word_recent());
                if matches_ignore_case(value, w.as_slice()) {
                    return Some(Status::Recent);
                }
            },
            7 => {
                let w: Vec<u8> = vec![85u8, 73u8, 68u8, 78u8, 69u8, 88u8, 84u8];
                assert(w@ == word_uidnext());
                if matches_ignore_case(value, w.as_slice()) {
                    return Some(Status::UidNext);
                }
                let w: Vec<u8> = vec![68u8, 69u8, 76u8, 69u8, 84u8, 69u8, 68u8];
                assert(w@ == word_deleted());
                if matches_ignore_case(value, w.as_slice()) {
                    return Some(Status::Deleted);
                }
            },
            8 => {
                let w: Vec<u8> = vec![77u8, 69u8, 83u8, 83u8, 65u8, 71u8, 69u8, 83u8];
                assert(w@ == word_messages());
                if matches_ignore_case(value, w.as_slice()) {
                    return Some(Status::Messages);
                }
            },
            9 => {
                let w: Vec<u8> = vec![77u8, 65u8, 73u8, 76u8, 66u8, 79u8, 88u8, 73u8, 68u8];
                assert(w@ == word_mailboxid());
                if matches_ignore_case(value, w.as_slice()) {
                    return Some(Status::MailboxId);
                }
            },
            11 => {
                let w: Vec<u8> = vec![85u8, 73u8, 68u8, 86u8, 65u8, 76u8, 73u8, 68u8, 73u8, 84u8, 89u8];
                assert(w@ == word_uidvalidity());
                if matches_ignore_case(value, w.as_slice()) {
                    return Some(Status::UidValidity);
                }
            },
            13 => {
                let w: Vec<u8> = vec![72u8, 73u8, 71u8, 72u8, 69u8, 83u8, 84u8, 77u8, 79u8, 68u8, 83u8, 69u8, 81u8];
                assert(w@ == word_highestmodseq());
                if matches_ignore_case(value, w.as_slice()) {
                    return Some(Status::HighestModSeq);
                }
            },
            15 => {
                let w: Vec<u8> = vec![68u8, 69u8, 76u8, 69u8, 84u8, 69u8, 68u8, 45u8, 83u8, 84u8, 79u8, 82u8, 65u8, 71u8, 69u8];
                assert(w@ == word_deleted_storage());
                if matches_ignore_case(value, w.as_slice()) {
                    return Some(Status::DeletedStorage);
                }
            },
            _ => {},
        }
        None
    }
}

/// The arguments of a STATUS command.
#[derive(Debug, PartialEq, Eq)]
pub struct Arguments {
    pub tag: String,
    pub mailbox_name: String,
    pub items: Vec<Status>,
}

/// The status items listed from token `i` on, after those in `acc`, up to the
/// closing parenthesis; a list that is never closed lacks arguments.
pub open spec fn items_from(toks: Seq<Lexeme>, i: int, acc: Seq<Status>) -> Result<
    Seq<Status>,
    ReasonView,
>
    decreases toks.len() - i,
{
    if i < 0 || i >= toks.len() {
        Err(ReasonView::MissingArguments)
    } else {
        match toks[i] {
            Lexeme::ParenthesisClose => Ok(acc),
            Lexeme::Argument(v) => match status_of(v) {
                Some(st) => items_from(toks, i + 1, acc.push(st)),
                None => Err(ReasonView::InvalidStatusOption(v)),
            },
            _ => Err(ReasonView::InvalidStatusArgument),
        }
    }
}

/// The mailbox name and status items of a STATUS request, or why it is refused.
pub open spec fn status_arguments(toks: Seq<Lexeme>, version: ProtocolVersion) -> Result<
    (Seq<char>, Seq<Status>),
    ReasonView,
> {
    if toks.len() == 0 {
        Err(ReasonView::MissingArguments)
    } else {
        match toks[0] {
            Lexeme::Argument(b) => if !valid_utf8(b) {
                Err(ReasonView::InvalidMailboxName)
            } else if toks.len() < 2 {
                Err(ReasonView::MissingArguments)
            } else if toks[1] != Lexeme::ParenthesisOpen {
                Err(ReasonView::ExpectedParenthesis)
            } else {
                match items_from(toks, 2, Seq::empty()) {
                    Ok(items) => if items.len() == 0 {
                        Err(ReasonView::NoStatusItems)
                    } else {
                        Ok((mailbox_text(decode_utf8(b), version), items))
                    },
                    Err(e) => Err(e),
                }
            },
            _ => Err(ReasonView::InvalidMailboxName),
        }
    }
}

/// Each word as an argument token.
pub open spec fn arguments(words: Seq<Seq<u8>>) -> Seq<Lexeme> {
    words.map_values(|w: Seq<u8>| Lexeme::Argument(w))
}

/// The status items that keywords name.
pub open spec fn statuses(words: Seq<Seq<u8>>) -> Seq<Status> {
    words.map_values(|w: Seq<u8>| status_of(w)->Some_0)
}

/// Every word names a status item.
pub open spec fn all_items(words: Seq<Seq<u8>>) -> bool {
    forall|i: int| 0 <= i < words.len() ==> (#[trigger] status_of(words[i])) is Some
}

proof fn lemma_items_run(
    toks: Seq<Lexeme>,
    words: Seq<Seq<u8>>,
    start: int,
    k: int,
    acc: Seq<Status>,
)
    requires
        0 <= k <= words.len(),
        0 <= start,
        start + words.len() <= toks.len(),
        all_items(words),
        forall|i: int| 0 <= i < words.len() ==> toks[start + i] == Lexeme::Argument(words[i]),
    ensures
        items_from(toks, start + k, acc) == items_from(
            toks,
            start + words.len(),
            acc + statuses(words.subrange(k, words.len() as int)),
        ),
    decreases words.len() - k,
{
    if k == words.len() {
        assert(acc + statuses(words.subrange(k, words.len() as int)) =~= acc);
    } else {
        assert(toks[start + k] == Lexeme::Argument(words[k]));
        assert(status_of(words[k]) is Some);
        lemma_items_run(toks, words, start, k + 1, acc.push(status_of(words[k])->Some_0));
        assert(acc.push(status_of(words[k])->Some_0) + statuses(
            words.subrange(k + 1, words.len() as int),
        ) =~= acc + statuses(words.subrange(k, words.len() as int)));
    }
}

/// A mailbox name followed by a parenthesized list of one or more status
/// keywords, in any mix of case, gives those items in the order written,
/// duplicates kept, and the mailbox name as the revision reads it: as it came
/// under the newer one, decoded from modified UTF-7 under the older one.
pub proof fn lemma_status_well_formed(
    name: Seq<u8>,
    words: Seq<Seq<u8>>,
    version: ProtocolVersion,
)
    requires
        valid_utf8(name),
        words.len() >= 1,
        all_items(words),
    ensures
        status_arguments(
            seq![Lexeme::Argument(name), Lexeme::ParenthesisOpen] + arguments(words) + seq![
                Lexeme::ParenthesisClose,
            ],
            version,
        ) == Ok::<_, ReasonView>((mailbox_text(decode_utf8(name), version), statuses(words))),
{
    let toks = seq![Lexeme::Argument(name), Lexeme::ParenthesisOpen] + arguments(words) + seq![
        Lexeme::ParenthesisClose,
    ];
    let n = words.len() as int;
    assert forall|i: int| 0 <= i < n implies toks[2 + i] == Lexeme::Argument(words[i]) by {}
    lemma_items_run(toks, words, 2, 0, Seq::empty());
    assert(Seq::<Status>::empty() + statuses(words.subrange(0, n)) =~= statuses(words));
    assert(toks[2 + n] == Lexeme::ParenthesisClose);
}

/// An empty list of status items is refused as such.
pub proof fn lemma_status_no_items(name: Seq<u8>, rest: Seq<Lexeme>, version: ProtocolVersion)
    requires
        valid_utf8(name),
    ensures
        status_arguments(
            seq![Lexeme::Argument(name), Lexeme::ParenthesisOpen, Lexeme::ParenthesisClose] + rest,
            version,
        ) == Err::<(Seq<char>, Seq<Status>), _>(ReasonView::NoStatusItems),
{
    let toks = seq![Lexeme::Argument(name), Lexeme::ParenthesisOpen, Lexeme::ParenthesisClose]
        + rest;
    assert(toks[2] == Lexeme::ParenthesisClose);
}

/// Whatever follows the mailbox name, if it is not an opening parenthesis the
/// request is refused for that.
pub proof fn lemma_status_needs_parenthesis(
    name: Seq<u8>,
    next: Lexeme,
    rest: Seq<Lexeme>,
    version: ProtocolVersion,
)
    requires
        valid_utf8(name),
        next != Lexeme::ParenthesisOpen,
    ensures
        status_arguments(seq![Lexeme::Argument(name), next] + rest, version) == Err::<
            (Seq<char>, Seq<Status>),
            _,
        >(ReasonView::ExpectedParenthesis),
{
    let toks = seq![Lexeme::Argument(name), next] + rest;
    assert(toks[1] == next);
}

/// A word in the list that names no status item is refused, and the refusal
/// carries that very word.
pub proof fn lemma_status_invalid_option(
    name: Seq<u8>,
    words: Seq<Seq<u8>>,
    bad: Seq<u8>,
    rest: Seq<Lexeme>,
    version: ProtocolVersion,
)
    requires
        valid_utf8(name),
        all_items(words),
        status_of(bad) is None,
    ensures
        status_arguments(
            seq![Lexeme::Argument(name), Lexeme::ParenthesisOpen] + arguments(words) + seq![
                Lexeme::Argument(bad),
            ] + rest,
            version,
        ) == Err::<(Seq<char>, Seq<Status>), _>(ReasonView::InvalidStatusOption(bad)),
{
    let toks = seq![Lexeme::Argument(name), Lexeme::ParenthesisOpen] + arguments(words) + seq![
        Lexeme::Argument(bad),
    ] + rest;
    let n = words.len() as int;
    assert forall|i: int| 0 <= i < n implies toks[2 + i] == Lexeme::Argument(words[i]) by {}
    lemma_items_run(toks, words, 2, 0, Seq::empty());
    assert(toks[2 + n] == Lexeme::Argument(bad));
}

impl Request {
    /// Reads the arguments of a STATUS command: a mailbox name, then a
    /// parenthesized list of at least one status item.
    pub fn parse_status(self, version: ProtocolVersion) -> (r: Result<Arguments, BadRequest>)
        ensures
            r is Ok ==> r->Ok_0.tag@ == self@.tag && status_arguments(self@.tokens, version)
                == Ok::<_, ReasonView>((r->Ok_0.mailbox_name@, r->Ok_0.items@)),
            r is Err ==> r->Err_0.tag@ == self@.tag && status_arguments(self@.tokens, version)
                == Err::<(Seq<char>, Seq<Status>), _>(r->Err_0.reason@),
    {
        let ghost toks = self@.tokens;
        let ghost the_tag = self@.tag;
        let Request { tag, command: _, tokens } = self;
        assert(toks.len() == tokens@.len());
        if tokens.len() == 0 {
            return Err(BadRequest { tag, reason: Reason::MissingArguments });
        }
        assert(toks[0] == tokens@[0]@);
        let bytes = match &tokens[0] {
            Token::Argument(v) => copy_bytes(v.as_slice()),
            _ => {
                return Err(BadRequest { tag, reason: Reason::InvalidMailboxName });
            },
        };
        let name = match string_from_utf8(bytes) {
            Some(s) => s,
            None => {
                return Err(BadRequest { tag, reason: Reason::InvalidMailboxName });
            },
        };
        if tokens.len() < 2 {
            return Err(BadRequest { tag, reason: Reason::MissingArguments });
        }
        assert(toks[1] == tokens@[1]@);
        match &tokens[1] {
            Token::ParenthesisOpen => {},
            _ => {
                return Err(BadRequest { tag, reason: Reason::ExpectedParenthesis });
            },
        }
        let mut items: Vec<Status> = Vec::new();
        let mut i: usize = 2;
        let mut closed = false;
        while i < tokens.len() && !closed
            invariant
                2 <= i <= tokens@.len(),
                closed ==> items_from(toks, 2, Seq::empty()) == Ok::<_, ReasonView>(items@),
                toks.len() >= 2,
                toks[0] is Argument,
                valid_utf8(toks[0]->Argument_0),
                name@ == decode_utf8(toks[0]->Argument_0),
                toks[1] == Lexeme::ParenthesisOpen,
                tag@ == the_tag,
                the_tag == self@.tag,
                toks == self@.tokens,
                toks == crate::token::lexemes(tokens@),
                !closed ==> items_from(toks, 2, Seq::empty()) == items_from(toks, i as int, items@),
            decreases tokens@.len() - i,
        {
            assert(toks[i as int] == tokens@[i as int]@);
            match &tokens[i] {
                Token::ParenthesisClose => {
                    closed = true;
                },
                Token::Argument(v) => match Status::parse(v.as_slice()) {
                    Ok(st) => {
                        items.push(st);
                    },
                    Err(reason) => {
                        assert(items_from(toks, i as int, items@) == Err::<Seq<Status>, ReasonView>(
                            ReasonView::InvalidStatusOption(v@),
                        ));
                        return Err(BadRequest { tag, reason });
                    },
                },
                _ => {
                    assert(items_from(toks, i as int, items@) == Err::<Seq<Status>, ReasonView>(
                        ReasonView::InvalidStatusArgument,
                    ));
                    return Err(BadRequest { tag, reason: Reason::InvalidStatusArgument });
                },
            }
            i = i + 1;
        }
        if !closed {
            return Err(BadRequest { tag, reason: Reason::MissingArguments });
        }
        if items.len() == 0 {
            Err(BadRequest { tag, reason: Reason::NoStatusItems })
        } else {
            let mailbox_name = utf7_maybe_decode(name, version);
            Ok(Arguments { tag, mailbox_name, items })
        }
    }
}

} // verus!
