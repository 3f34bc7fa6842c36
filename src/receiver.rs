//! The receiver: it takes the bytes of a connection in chunks of any size and
//! hands out one request for each complete command line.
use vstd::prelude::*;
use vstd::utf8::{decode_utf8, valid_utf8};

use crate::command::{command_of, Command};
use crate::lexer::{initial, lex_wf, scan, step, terminal, Fault, LexState, Lexer, Phase};
use crate::text::{opt_chars, string_from_utf8};
use crate::token::{Request, RequestView};

verus! {

/// The largest command line a receiver accepts unless told otherwise.
pub const DEFAULT_MAX_REQUEST_SIZE: usize = 26214400;

/// Why the receiver has no request to hand out.
#[derive(Debug, PartialEq, Eq)]
pub enum ReceiverError {
    /// The command line is not complete yet.
    NeedsMoreData,
    /// A synchronizing literal of `size` bytes was announced: the client waits
    /// for a continuation prompt before it sends them.
    NeedsLiteral { size: usize },
    /// The command line was malformed; `tag` is the client's tag when it could
    /// be read.
    Error { tag: Option<String>, fault: Fault },
}

/// The mathematical value of a [`ReceiverError`].
pub enum ReceiverErrorView {
    NeedsMoreData,
    NeedsLiteral { size: nat },
    Error { tag: Option<Seq<char>>, fault: Fault },
}

impl View for ReceiverError {
    type V = ReceiverErrorView;

    open spec fn view(&self) -> ReceiverErrorView {
        match self {
            ReceiverError::NeedsMoreData => ReceiverErrorView::NeedsMoreData,
            ReceiverError::NeedsLiteral { size } => ReceiverErrorView::NeedsLiteral {
                size: *size as nat,
            },
            ReceiverError::Error { tag, fault } => ReceiverErrorView::Error {
                tag: opt_chars(*tag),
                fault: *fault,
            },
        }
    }
}

pub open spec fn result_view(r: Result<Request, ReceiverError>) -> Result<
    RequestView,
    ReceiverErrorView,
> {
    match r {
        Ok(q) => Ok(q@),
        Err(e) => Err(e@),
    }
}

/// The tag of a rejected line, when there is a readable one.
pub open spec fn tag_text(tag: Seq<u8>) -> Option<Seq<char>> {
    if tag.len() > 0 && valid_utf8(tag) {
        Some(decode_utf8(tag))
    } else {
        None
    }
}

/// What a finished scan yields: a request, or a tagged error.
pub open spec fn outcome(s: LexState) -> Result<RequestView, ReceiverErrorView> {
    if s.phase == Phase::Done {
        match command_of(s.command) {
            None => Err(
                ReceiverErrorView::Error { tag: tag_text(s.tag), fault: Fault::UnknownCommand },
            ),
            Some(c) => if valid_utf8(s.tag) {
                Ok(RequestView { tag: decode_utf8(s.tag), command: c, tokens: s.tokens })
            } else {
                Err(ReceiverErrorView::Error { tag: None, fault: Fault::InvalidTag })
            },
        }
    } else {
        Err(
            ReceiverErrorView::Error {
                tag: if s.fault == Fault::InvalidTag {
                    None
                } else {
                    tag_text(s.tag)
                },
                fault: s.fault,
            },
        )
    }
}

/// What an unfinished scan asks for: the bytes of a synchronizing literal
/// just announced, or simply more input.
pub open spec fn waiting(s: LexState) -> ReceiverErrorView {
    if s.phase == Phase::Raw && s.sync && s.cur.len() == 0 {
        ReceiverErrorView::NeedsLiteral { size: s.count }
    } else {
        ReceiverErrorView::NeedsMoreData
    }
}

/// The number of bytes of `bytes` that make up its first command line, once
/// that line is finished.
pub open spec fn frame_len(bytes: Seq<u8>, max: nat) -> nat
    decreases bytes.len(),
{
    if bytes.len() == 0 {
        0
    } else if terminal(scan(bytes.drop_last(), max)) {
        frame_len(bytes.drop_last(), max)
    } else {
        bytes.len()
    }
}

/// Once a line is finished, the bytes after it do not change the scan.
pub proof fn lemma_scan_absorbs(a: Seq<u8>, b: Seq<u8>, max: nat)
    requires
        terminal(scan(a, max)),
    ensures
        scan(a + b, max) == scan(a, max),
    decreases b.len(),
{
    if b.len() == 0 {
        assert(a + b =~= a);
    } else {
        assert((a + b).drop_last() =~= a + b.drop_last());
        lemma_scan_absorbs(a, b.drop_last(), max);
    }
}

/// The scan of a prefix extended by one byte is one step of the scanner.
pub proof fn lemma_scan_push(bytes: Seq<u8>, k: int, max: nat)
    requires
        0 <= k < bytes.len(),
    ensures
        scan(bytes.take(k + 1), max) == step(scan(bytes.take(k), max), bytes[k], max),
{
    assert(bytes.take(k + 1).drop_last() =~= bytes.take(k));
}

/// The first line of `bytes` ends where the scan first finishes.
pub proof fn lemma_frame_len(bytes: Seq<u8>, k: int, max: nat)
    requires
        0 <= k < bytes.len(),
        !terminal(scan(bytes.take(k), max)),
        terminal(scan(bytes.take(k + 1), max)),
    ensures
        frame_len(bytes, max) == k + 1,
    decreases bytes.len(),
{
    if bytes.len() == k + 1 {
        assert(bytes.drop_last() =~= bytes.take(k));
    } else {
        let d = bytes.drop_last();
        assert(d.take(k) =~= bytes.take(k));
        assert(d.take(k + 1) =~= bytes.take(k + 1));
        lemma_frame_len(d, k, max);
        let rest = d.subrange(k + 1, d.len() as int);
        assert(d =~= bytes.take(k + 1) + rest);
        lemma_scan_absorbs(bytes.take(k + 1), rest, max);
    }
}

proof fn lemma_frame_len_bound(bytes: Seq<u8>, max: nat)
    ensures
        frame_len(bytes, max) <= bytes.len(),
    decreases bytes.len(),
{
    if bytes.len() > 0 {
        lemma_frame_len_bound(bytes.drop_last(), max);
    }
}

/// However a command line is cut into chunks, the receiver hands out nothing
/// before its last byte: when the first line of `line` ends exactly at its
/// end, no proper prefix of it holds a finished line. With the contract of
/// `Receiver::parse`, which scans everything still pending, the line fed in
/// pieces then yields the very request it yields in one piece.
pub proof fn lemma_chunked_line(line: Seq<u8>, k: int, max: nat)
    requires
        0 <= k < line.len(),
        terminal(scan(line, max)),
        frame_len(line, max) == line.len(),
    ensures
        !terminal(scan(line.take(k), max)),
{
    let d = line.drop_last();
    if terminal(scan(d, max)) {
        lemma_frame_len_bound(d, max);
        assert(false);
    }
    if terminal(scan(line.take(k), max)) {
        let rest = d.subrange(k, d.len() as int);
        assert(d =~= line.take(k) + rest);
        lemma_scan_absorbs(line.take(k), rest, max);
    }
}

/// Gives the tag of a rejected line, when there is a readable one.
fn tag_string(tag: Vec<u8>) -> (r: Option<String>)
    ensures
        opt_chars(r) == tag_text(tag@),
{
    if tag.len() > 0 {
        string_from_utf8(tag)
    } else {
        None
    }
}

/// Turns a finished scan into its request or error.
fn finish(lexer: Lexer) -> (r: Result<Request, ReceiverError>)
    requires
        terminal(lexer@),
    ensures
        result_view(r) == outcome(lexer@),
{
    let ghost s = lexer@;
    let Lexer { phase, tag, command, tokens, fault, .. } = lexer;
    if phase == Phase::Done {
        match Command::parse(command.as_slice()) {
            None => Err(ReceiverError::Error { tag: tag_string(tag), fault: Fault::UnknownCommand }),
            Some(c) => match string_from_utf8(tag) {
                Some(t) => Ok(Request { tag: t, command: c, tokens }),
                None => Err(ReceiverError::Error { tag: None, fault: Fault::InvalidTag }),
            },
        }
    } else {
        let t = if fault == Fault::InvalidTag {
            None
        } else {
            tag_string(tag)
        };
        Err(ReceiverError::Error { tag: t, fault })
    }
}

/// The receiver of one connection.
pub struct Receiver {
    lexer: Lexer,
    scanned: Ghost<Seq<u8>>,
    buf: Vec<u8>,
    max_request_size: usize,
}

impl Receiver {
    /// The bytes received that belong to no request handed out yet.
    pub closed spec fn pending(&self) -> Seq<u8> {
        self.scanned@ + self.buf@
    }

    /// The largest command line accepted.
    pub closed spec fn max_size(&self) -> nat {
        self.max_request_size as nat
    }

    pub closed spec fn wf(&self) -> bool {
        &&& self.lexer@ == scan(self.scanned@, self.max_request_size as nat)
        &&& !terminal(self.lexer@)
        &&& lex_wf(self.lexer@)
    }

    /// A receiver with nothing received and the default line limit.
    pub fn new() -> (r: Receiver)
        ensures
            r.wf(),
            r.pending() == Seq::<u8>::empty(),
            r.max_size() == DEFAULT_MAX_REQUEST_SIZE,
    {
        Receiver::with_max_request_size(DEFAULT_MAX_REQUEST_SIZE)
    }

    /// A receiver with nothing received that accepts lines of at most `size` bytes.
    pub fn with_max_request_size(size: usize) -> (r: Receiver)
        ensures
            r.wf(),
            r.pending() == Seq::<u8>::empty(),
            r.max_size() == size,
    {
        let r = Receiver {
            lexer: Lexer::new(),
            scanned: Ghost(Seq::empty()),
            buf: Vec::new(),
            max_request_size: size,
        };
        assert(r.pending() =~= Seq::<u8>::empty());
        r
    }

    /// Takes the next chunk of bytes. Hands out the request of the first
    /// command line once it is complete, keeping what follows it for the next
    /// call; otherwise keeps everything and says what it waits for.
    #[verifier::rlimit(40)]
    pub fn parse(&mut self, chunk: &[u8]) -> (r: Result<Request, ReceiverError>)
        requires
            old(self).wf(),
        ensures
            final(self).wf(),
            final(self).max_size() == old(self).max_size(),
            ({
                let s = old(self).pending() + chunk@;
                let m = old(self).max_size();
                if terminal(scan(s, m)) {
                    &&& result_view(r) == outcome(scan(s, m))
                    &&& final(self).pending() == s.subrange(frame_len(s, m) as int, s.len() as int)
                } else {
                    &&& result_view(r) == Err::<RequestView, _>(waiting(scan(s, m)))
                    &&& final(self).pending() == s
                }
            }),
    {
        let ghost s = old(self).pending() + chunk@;
        let ghost m = self.max_request_size as nat;
        let mut j: usize = 0;
        while j < chunk.len()
            invariant
                0 <= j <= chunk@.len(),
                self.buf@ == old(self).buf@ + chunk@.take(j as int),
                self.scanned@ == old(self).scanned@,
                self.lexer@ == old(self).lexer@,
                self.max_request_size == old(self).max_request_size,
            decreases chunk@.len() - j,
        {
            self.buf.push(chunk[j]);
            j = j + 1;
            assert(self.buf@ =~= old(self).buf@ + chunk@.take(j as int));
        }
        assert(chunk@.take(chunk@.len() as int) =~= chunk@);
        assert(s =~= self.scanned@ + self.buf@);
        let max = self.max_request_size;
        let ghost sl = self.scanned@.len();
        let mut i: usize = 0;
        let mut done = false;
        assert(s.take(sl as int) =~= self.scanned@);
        while i < self.buf.len() && !done
            invariant
                0 <= i <= self.buf@.len(),
                s == self.scanned@ + self.buf@,
                sl == self.scanned@.len(),
                max == self.max_request_size,
                m == max as nat,
                self.lexer@ == scan(s.take(sl + i), m),
                lex_wf(self.lexer@),
                !done ==> !terminal(self.lexer@),
                done ==> i >= 1 && terminal(self.lexer@) && !terminal(
                    scan(s.take(sl + i - 1), m),
                ),
            decreases self.buf@.len() - i,
        {
            let b = self.buf[i];
            proof {
                assert(s[sl + i] == b);
                lemma_scan_push(s, sl + i, m);
            }
            self.lexer.step(b, max);
            i = i + 1;
            done = self.lexer.is_terminal();
        }
        if done {
            proof {
                lemma_frame_len(s, sl + i - 1, m);
                assert(s =~= s.take(sl + i) + s.subrange(sl + i, s.len() as int));
                lemma_scan_absorbs(s.take(sl + i), s.subrange(sl + i, s.len() as int), m);
            }
            let rest = self.buf.split_off(i);
            self.buf = rest;
            let mut lexer = Lexer::new();
            std::mem::swap(&mut lexer, &mut self.lexer);
            self.scanned = Ghost(Seq::empty());
            proof {
                assert(self.pending() =~= s.subrange(sl + i, s.len() as int));
                assert(self.lexer@ == scan(Seq::<u8>::empty(), m));
            }
            finish(lexer)
        } else {
            proof {
                assert(s.take(sl + i) =~= s);
            }
            self.scanned = Ghost(s);
            self.buf.clear();
            assert(self.pending() =~= s);
            if self.lexer.phase == Phase::Raw && self.lexer.sync && self.lexer.cur.len() == 0 {
                Err(ReceiverError::NeedsLiteral { size: self.lexer.count })
            } else {
                Err(ReceiverError::NeedsMoreData)
            }
        }
    }
}

} // verus!
