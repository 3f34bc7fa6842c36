//! The byte-level scanner of one command line. Its behaviour is a fold of
//! `step` over the bytes received, so it can be resumed at any byte.
use vstd::prelude::*;

use crate::keyword::{eq_ignore_case, matches_ignore_case};
use crate::token::{lexemes, Lexeme, Token};

verus! {

/// Where the scanner stands inside a command line.
#[derive(Clone, Copy, Debug, PartialEq, Eq, Structural)]
pub enum Phase {
    Tag,
    Command,
    Between,
    Atom,
    Quoted,
    Escape,
    LiteralStart,
    LiteralCount,
    LiteralPlus,
    LiteralClose,
    LiteralCr,
    Raw,
    Skip,
    Done,
    Failed,
}

/// Why a command line was rejected by the scanner.
#[derive(Clone, Copy, Debug, PartialEq, Eq, Structural)]
pub enum Fault {
    InvalidTag,
    MissingCommand,
    UnknownCommand,
    InvalidQuote,
    InvalidLiteral,
    TooLarge,
}

/// The mathematical state of the scanner.
pub struct LexState {
    pub phase: Phase,
    pub tag: Seq<u8>,
    pub command: Seq<u8>,
    pub tokens: Seq<Lexeme>,
    pub cur: Seq<u8>,
    pub count: nat,
    pub sync: bool,
    pub used: nat,
    pub fault: Fault,
}

pub open spec fn initial() -> LexState {
    LexState {
        phase: Phase::Tag,
        tag: Seq::empty(),
        command: Seq::empty(),
        tokens: Seq::empty(),
        cur: Seq::empty(),
        count: 0,
        sync: false,
        used: 0,
        fault: Fault::InvalidTag,
    }
}

/// A finished scan: the line ended, well formed or not.
pub open spec fn terminal(s: LexState) -> bool {
    s.phase == Phase::Done || s.phase == Phase::Failed
}

/// A byte that may stand in a tag.
pub open spec fn is_tag_byte(b: u8) -> bool {
    0x21 <= b <= 0x7e && b != 0x28 && b != 0x29 && b != 0x7b && b != 0x22 && b != 0x5c && b
        != 0x25 && b != 0x2a
}

/// A byte that ends an atom.
pub open spec fn is_delimiter(b: u8) -> bool {
    b == 32 || b == 13 || b == 10 || b == 0x28 || b == 0x29 || b == 0x22 || b == 0x7b
}

pub open spec fn is_digit(b: u8) -> bool {
    48 <= b <= 57
}

/// The word `NIL`.
pub open spec fn word_nil() -> Seq<u8> {
    seq![78u8, 73u8, 76u8]
}

/// The token an unquoted atom stands for.
pub open spec fn atom_lexeme(cur: Seq<u8>) -> Lexeme {
    if eq_ignore_case(cur, word_nil()) {
        Lexeme::Nil
    } else {
        Lexeme::Argument(cur)
    }
}

/// Rejects the line: at once when `b` ends it, else after skipping to its end.
pub open spec fn fail_at(s: LexState, b: u8, f: Fault) -> LexState {
    LexState { phase: if b == 10 { Phase::Failed } else { Phase::Skip }, fault: f, ..s }
}

pub open spec fn with_phase(s: LexState, p: Phase) -> LexState {
    LexState { phase: p, ..s }
}

pub open spec fn push_token(s: LexState, t: Lexeme) -> LexState {
    LexState { tokens: s.tokens.push(t), ..s }
}

/// Ends the atom being read.
pub open spec fn finish_atom(s: LexState) -> LexState {
    LexState {
        phase: Phase::Between,
        tokens: s.tokens.push(atom_lexeme(s.cur)),
        cur: Seq::empty(),
        ..s
    }
}

/// A byte read between two tokens.
pub open spec fn between(s: LexState, b: u8) -> LexState {
    if b == 32 || b == 13 {
        with_phase(s, Phase::Between)
    } else if b == 10 {
        with_phase(s, Phase::Done)
    } else if b == 0x28 {
        with_phase(push_token(s, Lexeme::ParenthesisOpen), Phase::Between)
    } else if b == 0x29 {
        with_phase(push_token(s, Lexeme::ParenthesisClose), Phase::Between)
    } else if b == 0x22 {
        LexState { phase: Phase::Quoted, cur: Seq::empty(), ..s }
    } else if b == 0x7b {
        LexState { phase: Phase::LiteralStart, count: 0, ..s }
    } else {
        LexState { phase: Phase::Atom, cur: seq![b], ..s }
    }
}

/// A digit of a literal's length.
pub open spec fn literal_digit(s: LexState, b: u8, max: nat) -> LexState {
    let n = s.count * 10 + (b - 48) as nat;
    if n > max {
        fail_at(s, b, Fault::TooLarge)
    } else {
        LexState { phase: Phase::LiteralCount, count: n, ..s }
    }
}

/// The line break after a literal's length: its bytes follow.
pub open spec fn open_literal(s: LexState) -> LexState {
    if s.count == 0 {
        with_phase(push_token(s, Lexeme::Argument(Seq::empty())), Phase::Between)
    } else {
        LexState { phase: Phase::Raw, cur: Seq::empty(), ..s }
    }
}

/// A byte read in a phase that is neither terminal nor skipping.
pub open spec fn step_in(s: LexState, b: u8, max: nat) -> LexState {
    match s.phase {
        Phase::Tag => if b == 32 {
            if s.tag.len() == 0 {
                fail_at(s, b, Fault::InvalidTag)
            } else {
                with_phase(s, Phase::Command)
            }
        } else if b == 10 {
            fail_at(s, b, if s.tag.len() == 0 { Fault::InvalidTag } else { Fault::MissingCommand })
        } else if b == 13 {
            s
        } else if is_tag_byte(b) {
            LexState { tag: s.tag.push(b), ..s }
        } else {
            fail_at(s, b, Fault::InvalidTag)
        },
        Phase::Command => if b == 32 || b == 10 {
            if s.command.len() == 0 {
                fail_at(s, b, Fault::MissingCommand)
            } else if b == 32 {
                with_phase(s, Phase::Between)
            } else {
                with_phase(s, Phase::Done)
            }
        } else if b == 13 {
            s
        } else {
            LexState { command: s.command.push(b), ..s }
        },
        Phase::Between => between(s, b),
        Phase::Atom => if is_delimiter(b) {
            between(finish_atom(s), b)
        } else {
            LexState { cur: s.cur.push(b), ..s }
        },
        Phase::Quoted => if b == 0x5c {
            with_phase(s, Phase::Escape)
        } else if b == 0x22 {
            LexState {
                phase: Phase::Between,
                tokens: s.tokens.push(Lexeme::Argument(s.cur)),
                cur: Seq::empty(),
                ..s
            }
        } else if b == 10 || b == 13 {
            fail_at(s, b, Fault::InvalidQuote)
        } else {
            LexState { cur: s.cur.push(b), ..s }
        },
        Phase::Escape => if b == 10 || b == 13 {
            fail_at(s, b, Fault::InvalidQuote)
        } else {
            LexState { phase: Phase::Quoted, cur: s.cur.push(b), ..s }
        },
        Phase::LiteralStart => if is_digit(b) {
            literal_digit(s, b, max)
        } else {
            fail_at(s, b, Fault::InvalidLiteral)
        },
        Phase::LiteralCount => if is_digit(b) {
            literal_digit(s, b, max)
        } else if b == 0x2b {
            LexState { phase: Phase::LiteralPlus, sync: false, ..s }
        } else if b == 0x7d {
            LexState { phase: Phase::LiteralClose, sync: true, ..s }
        } else {
            fail_at(s, b, Fault::InvalidLiteral)
        },
        Phase::LiteralPlus => if b == 0x7d {
            LexState { phase: Phase::LiteralClose, sync: false, ..s }
        } else {
            fail_at(s, b, Fault::InvalidLiteral)
        },
        Phase::LiteralClose => if b == 13 {
            with_phase(s, Phase::LiteralCr)
        } else if b == 10 {
            open_literal(s)
        } else {
            fail_at(s, b, Fault::InvalidLiteral)
        },
        Phase::LiteralCr => if b == 10 {
            open_literal(s)
        } else {
            fail_at(s, b, Fault::InvalidLiteral)
        },
        Phase::Raw => if s.count <= 1 {
            LexState {
                phase: Phase::Between,
                tokens: s.tokens.push(Lexeme::Argument(s.cur.push(b))),
                cur: Seq::empty(),
                count: 0,
                ..s
            }
        } else {
            LexState { cur: s.cur.push(b), count: (s.count - 1) as nat, ..s }
        },
        _ => s,
    }
}

/// The scanner's move on one byte. A line may hold at most `max` bytes
/// (skipped bytes of a rejected line aside).
pub open spec fn step(s: LexState, b: u8, max: nat) -> LexState {
    if terminal(s) {
        s
    } else if s.phase == Phase::Skip {
        if b == 10 {
            with_phase(s, Phase::Failed)
        } else {
            s
        }
    } else if s.used >= max {
        fail_at(s, b, Fault::TooLarge)
    } else {
        step_in(LexState { used: s.used + 1, ..s }, b, max)
    }
}

/// The scanner's state after reading `bytes` from the start of a line.
pub open spec fn scan(bytes: Seq<u8>, max: nat) -> LexState
    decreases bytes.len(),
{
    if bytes.len() == 0 {
        initial()
    } else {
        step(scan(bytes.drop_last(), max), bytes.last(), max)
    }
}

/// The scanner's state after reading `bytes` from state `s`.
pub open spec fn scan_from(s: LexState, bytes: Seq<u8>, max: nat) -> LexState
    decreases bytes.len(),
{
    if bytes.len() == 0 {
        s
    } else {
        step(scan_from(s, bytes.drop_last(), max), bytes.last(), max)
    }
}

/// Scanning in two parts is scanning the whole.
pub proof fn lemma_scan_split(a: Seq<u8>, b: Seq<u8>, max: nat)
    ensures
        scan(a + b, max) == scan_from(scan(a, max), b, max),
    decreases b.len(),
{
    if b.len() == 0 {
        assert(a + b =~= a);
    } else {
        assert((a + b).drop_last() =~= a + b.drop_last());
        lemma_scan_split(a, b.drop_last(), max);
    }
}

proof fn lemma_raw_prefix(s: LexState, data: Seq<u8>, j: int, max: nat)
    requires
        s.phase == Phase::Raw,
        s.count == data.len(),
        0 <= j < data.len(),
        s.used + data.len() <= max,
    ensures
        scan_from(s, data.take(j), max) == (LexState {
            cur: s.cur + data.take(j),
            count: (s.count - j) as nat,
            used: s.used + j as nat,
            ..s
        }),
    decreases j,
{
    if j == 0 {
        assert(data.take(0) =~= Seq::<u8>::empty());
        assert(s.cur + data.take(0) =~= s.cur);
    } else {
        assert(data.take(j).drop_last() =~= data.take(j - 1));
        lemma_raw_prefix(s, data, j - 1, max);
        assert(s.cur + data.take(j - 1) + seq![data[j - 1]] =~= s.cur + data.take(j));
        assert((s.cur + data.take(j - 1)).push(data[j - 1]) =~= s.cur + data.take(j));
    }
}

/// Literals are binary safe: once a literal of `data.len()` bytes is
/// announced, its bytes, whatever they are (line breaks, quotes, NUL),
/// become exactly one argument holding those bytes, and scanning goes on
/// between tokens.
pub proof fn lemma_literal_round_trip(head: Seq<u8>, data: Seq<u8>, max: nat)
    requires
        scan(head, max).phase == Phase::Raw,
        scan(head, max).count == data.len(),
        scan(head, max).cur.len() == 0,
        scan(head, max).used + data.len() <= max,
    ensures
        scan(head + data, max).phase == Phase::Between,
        scan(head + data, max).tokens == scan(head, max).tokens.push(Lexeme::Argument(data)),
{
    let s = scan(head, max);
    lemma_scan_split(head, data, max);
    let n = data.len() as int;
    // a literal being read has bytes left: the scanner reaches `Raw` only so
    assert(n >= 1);
    lemma_raw_prefix(s, data, n - 1, max);
    assert(data.drop_last() =~= data.take(n - 1));
    assert(s.cur + data.take(n - 1) =~= data.take(n - 1));
    assert(data.take(n - 1).push(data[n - 1]) =~= data);
}

/// Scanning from a state in two parts is scanning the whole.
pub proof fn lemma_scan_from_split(s: LexState, a: Seq<u8>, b: Seq<u8>, max: nat)
    ensures
        scan_from(s, a + b, max) == scan_from(scan_from(s, a, max), b, max),
    decreases b.len(),
{
    if b.len() == 0 {
        assert(a + b =~= a);
    } else {
        assert((a + b).drop_last() =~= a + b.drop_last());
        lemma_scan_from_split(s, a, b.drop_last(), max);
    }
}

/// The decimal digits of `n`, most significant first.
pub open spec fn decimal(n: nat) -> Seq<u8>
    decreases n,
{
    if n < 10 {
        seq![(48 + n) as u8]
    } else {
        decimal(n / 10).push((48 + n % 10) as u8)
    }
}

/// The announcement of a literal of `n` bytes: `{n}` and a line break.
pub open spec fn literal_header(n: nat) -> Seq<u8> {
    seq![0x7bu8] + decimal(n) + seq![0x7du8, 13u8, 10u8]
}

proof fn lemma_decimal_len(n: nat)
    ensures
        1 <= decimal(n).len() <= n + 1,
    decreases n,
{
    if n >= 10 {
        lemma_decimal_len(n / 10);
    }
}

proof fn lemma_scan_digits(s: LexState, n: nat, max: nat)
    requires
        s.phase == Phase::LiteralStart,
        s.count == 0,
        n <= max,
        s.used + decimal(n).len() <= max,
    ensures
        scan_from(s, decimal(n), max) == (LexState {
            phase: Phase::LiteralCount,
            count: n,
            used: s.used + decimal(n).len(),
            ..s
        }),
    decreases n,
{
    lemma_decimal_len(n);
    if n < 10 {
        assert(decimal(n).drop_last() =~= Seq::<u8>::empty());
        assert(scan_from(s, Seq::<u8>::empty(), max) == s);
        assert(decimal(n).last() == (48 + n) as u8);
        assert(scan_from(s, decimal(n), max) == step(s, (48 + n) as u8, max));
    } else {
        lemma_decimal_len(n / 10);
        lemma_scan_digits(s, n / 10, max);
        assert(decimal(n).drop_last() =~= decimal(n / 10));
        assert((n / 10) * 10 + n % 10 == n);
    }
}

/// Literals are binary safe from their announcement on: between two tokens,
/// `{n}`, a line break and then any `n` bytes give exactly one more argument,
/// holding those bytes, when the line stays within its limit.
pub proof fn lemma_literal_announced(head: Seq<u8>, data: Seq<u8>, max: nat)
    requires
        scan(head, max).phase == Phase::Between,
        data.len() >= 1,
        scan(head, max).used + literal_header(data.len()).len() + data.len() <= max,
    ensures
        scan(head + literal_header(data.len()) + data, max).phase == Phase::Between,
        scan(head + literal_header(data.len()) + data, max).tokens == scan(head, max).tokens.push(
            Lexeme::Argument(data),
        ),
{
    let n = data.len();
    let s = scan(head, max);
    let digits = decimal(n);
    lemma_decimal_len(n);
    let open = seq![0x7bu8];
    let close = seq![0x7du8, 13u8, 10u8];
    assert(literal_header(n) == open + digits + close);
    lemma_scan_split(head, literal_header(n), max);
    lemma_scan_from_split(s, open + digits, close, max);
    lemma_scan_from_split(s, open, digits, max);
    assert(open.drop_last() =~= Seq::<u8>::empty());
    assert(scan_from(s, Seq::<u8>::empty(), max) == s);
    assert(scan_from(s, open, max) == step(s, 0x7bu8, max));
    let s1 = scan_from(s, open, max);
    assert(s1.phase == Phase::LiteralStart && s1.count == 0);
    lemma_scan_digits(s1, n, max);
    let s2 = scan_from(s1, digits, max);
    let c1 = seq![0x7du8];
    let c2 = seq![0x7du8, 13u8];
    assert(c1.drop_last() =~= Seq::<u8>::empty());
    assert(c2.drop_last() =~= c1);
    assert(close.drop_last() =~= c2);
    assert(scan_from(s2, Seq::<u8>::empty(), max) == s2);
    let s3 = step(s2, 0x7du8, max);
    assert(scan_from(s2, c1, max) == s3);
    assert(s3.phase == Phase::LiteralClose);
    let s4 = step(s3, 13u8, max);
    assert(scan_from(s2, c2, max) == s4);
    assert(s4.phase == Phase::LiteralCr);
    let s5 = step(s4, 10u8, max);
    assert(scan_from(s2, close, max) == s5);
    assert(s5.phase == Phase::Raw && s5.count == n && s5.cur.len() == 0);
    let h = head + literal_header(n);
    assert(scan(h, max).phase == Phase::Raw);
    assert(scan(h, max).count == n);
    lemma_literal_round_trip(h, data, max);
}

/// A state the scanner can be in: a literal still to be read has bytes left.
pub open spec fn lex_wf(s: LexState) -> bool {
    s.phase == Phase::Raw ==> s.count >= 1
}

/// The scanner.
pub struct Lexer {
    pub phase: Phase,
    pub tag: Vec<u8>,
    pub command: Vec<u8>,
    pub tokens: Vec<Token>,
    pub cur: Vec<u8>,
    pub count: usize,
    pub sync: bool,
    pub used: usize,
    pub fault: Fault,
}

impl View for Lexer {
    type V = LexState;

    open spec fn view(&self) -> LexState {
        LexState {
            phase: self.phase,
            tag: self.tag@,
            command: self.command@,
            tokens: lexemes(self.tokens@),
            cur: self.cur@,
            count: self.count as nat,
            sync: self.sync,
            used: self.used as nat,
            fault: self.fault,
        }
    }
}

impl Lexer {
    pub fn new() -> (r: Lexer)
        ensures
            r@ == initial(),
    {
        let r = Lexer {
            phase: Phase::Tag,
            tag: Vec::new(),
            command: Vec::new(),
            tokens: Vec::new(),
            cur: Vec::new(),
            count: 0,
            sync: false,
            used: 0,
            fault: Fault::InvalidTag,
        };
        assert(lexemes(r.tokens@) =~= Seq::<Lexeme>::empty());
        r
    }

    pub fn is_terminal(&self) -> (r: bool)
        ensures
            r == terminal(self@),
    {
        self.phase == Phase::Done || self.phase == Phase::Failed
    }

    fn fail_at(&mut self, b: u8, f: Fault)
        ensures
            final(self)@ == fail_at(old(self)@, b, f),
    {
        self.phase = if b == 10 {
            Phase::Failed
        } else {
            Phase::Skip
        };
        self.fault = f;
    }

    fn push_token(&mut self, t: Token)
        ensures
            final(self)@ == push_token(old(self)@, t@),
    {
        let ghost before = self.tokens@;
        self.tokens.push(t);
        assert(lexemes(self.tokens@) =~= lexemes(before).push(t@));
    }

    /// Hands out the bytes gathered so far and starts afresh.
    fn take_cur(&mut self) -> (r: Vec<u8>)
        ensures
            r@ == old(self)@.cur,
            final(self)@ == (LexState { cur: Seq::empty(), ..old(self)@ }),
    {
        let mut v: Vec<u8> = Vec::new();
        std::mem::swap(&mut v, &mut self.cur);
        v
    }

    fn finish_atom(&mut self)
        ensures
            final(self)@ == finish_atom(old(self)@),
    {
        let v = self.take_cur();
        let w: Vec<u8> = vec![78u8, 73u8, 76u8];
        assert(w@ == word_nil());
        if matches_ignore_case(v.as_slice(), w.as_slice()) {
            self.push_token(Token::Nil);
        } else {
            self.push_token(Token::Argument(v));
        }
        self.phase = Phase::Between;
    }

    fn between(&mut self, b: u8)
        ensures
            final(self)@ == between(old(self)@, b),
    {
        if b == 32 || b == 13 {
            self.phase = Phase::Between;
        } else if b == 10 {
            self.phase = Phase::Done;
        } else if b == 0x28 {
            self.push_token(Token::ParenthesisOpen);
            self.phase = Phase::Between;
        } else if b == 0x29 {
            self.push_token(Token::ParenthesisClose);
            self.phase = Phase::Between;
        } else if b == 0x22 {
            self.phase = Phase::Quoted;
            self.cur = Vec::new();
        } else if b == 0x7b {
            self.phase = Phase::LiteralStart;
            self.count = 0;
        } else {
            self.phase = Phase::Atom;
            self.cur = vec![b];
            assert(self.cur@ =~= seq![b]);
        }
    }

    fn literal_digit(&mut self, b: u8, max: usize)
        requires
            is_digit(b),
        ensures
            final(self)@ == literal_digit(old(self)@, b, max as nat),
    {
        let d: usize = (b - 48) as usize;
        let c = self.count;
        let over: bool = if c > max / 10 {
            assert((c as int) * 10 + d > max) by (nonlinear_arith)
                requires
                    c > max / 10,
                    d >= 0,
            ;
            true
        } else {
            assert((c as int) * 10 <= max) by (nonlinear_arith)
                requires
                    c <= max / 10,
            ;
            let t = c * 10;
            d > max || t > max - d
        };
        if over {
            self.fail_at(b, Fault::TooLarge);
        } else {
            self.count = c * 10 + d;
            self.phase = Phase::LiteralCount;
        }
    }

    fn open_literal(&mut self)
        ensures
            final(self)@ == open_literal(old(self)@),
    {
        if self.count == 0 {
            self.push_token(Token::Argument(Vec::new()));
            self.phase = Phase::Between;
        } else {
            self.phase = Phase::Raw;
            self.cur = Vec::new();
        }
    }

    fn step_in(&mut self, b: u8, max: usize)
        requires
            lex_wf(old(self)@),
        ensures
            final(self)@ == step_in(old(self)@, b, max as nat),
            lex_wf(final(self)@),
    {
        match self.phase {
            Phase::Tag => {
                if b == 32 {
                    if self.tag.len() == 0 {
                        self.fail_at(b, Fault::InvalidTag);
                    } else {
                        self.phase = Phase::Command;
                    }
                } else if b == 10 {
                    let f = if self.tag.len() == 0 {
                        Fault::InvalidTag
                    } else {
                        Fault::MissingCommand
                    };
                    self.fail_at(b, f);
                } else if b == 13 {
                } else if 0x21 <= b && b <= 0x7e && b != 0x28 && b != 0x29 && b != 0x7b && b
                    != 0x22 && b != 0x5c && b != 0x25 && b != 0x2a {
                    self.tag.push(b);
                } else {
                    self.fail_at(b, Fault::InvalidTag);
                }
            },
            Phase::Command => {
                if b == 32 || b == 10 {
                    if self.command.len() == 0 {
                        self.fail_at(b, Fault::MissingCommand);
                    } else if b == 32 {
                        self.phase = Phase::Between;
                    } else {
                        self.phase = Phase::Done;
                    }
                } else if b == 13 {
                } else {
                    self.command.push(b);
                }
            },
            Phase::Between => {
                self.between(b);
            },
            Phase::Atom => {
                if b == 32 || b == 13 || b == 10 || b == 0x28 || b == 0x29 || b == 0x22 || b
                    == 0x7b {
                    self.finish_atom();
                    self.between(b);
                } else {
                    self.cur.push(b);
                }
            },
            Phase::Quoted => {
                if b == 0x5c {
                    self.phase = Phase::Escape;
                } else if b == 0x22 {
                    let v = self.take_cur();
                    self.push_token(Token::Argument(v));
                    self.phase = Phase::Between;
                } else if b == 10 || b == 13 {
                    self.fail_at(b, Fault::InvalidQuote);
                } else {
                    self.cur.push(b);
                }
            },
            Phase::Escape => {
                if b == 10 || b == 13 {
                    self.fail_at(b, Fault::InvalidQuote);
                } else {
                    self.cur.push(b);
                    self.phase = Phase::Quoted;
                }
            },
            Phase::LiteralStart => {
                if 48 <= b && b <= 57 {
                    self.literal_digit(b, max);
                } else {
                    self.fail_at(b, Fault::InvalidLiteral);
                }
            },
            Phase::LiteralCount => {
                if 48 <= b && b <= 57 {
                    self.literal_digit(b, max);
                } else if b == 0x2b {
                    self.phase = Phase::LiteralPlus;
                    self.sync = false;
                } else if b == 0x7d {
                    self.phase = Phase::LiteralClose;
                    self.sync = true;
                } else {
                    self.fail_at(b, Fault::InvalidLiteral);
                }
            },
            Phase::LiteralPlus => {
                if b == 0x7d {
                    self.phase = Phase::LiteralClose;
                    self.sync = false;
                } else {
                    self.fail_at(b, Fault::InvalidLiteral);
                }
            },
            Phase::LiteralClose => {
                if b == 13 {
                    self.phase = Phase::LiteralCr;
                } else if b == 10 {
                    self.open_literal();
                } else {
                    self.fail_at(b, Fault::InvalidLiteral);
                }
            },
            Phase::LiteralCr => {
                if b == 10 {
                    self.open_literal();
                } else {
                    self.fail_at(b, Fault::InvalidLiteral);
                }
            },
            Phase::Raw => {
                self.cur.push(b);
                if self.count <= 1 {
                    let v = self.take_cur();
                    self.push_token(Token::Argument(v));
                    self.count = 0;
                    self.phase = Phase::Between;
                } else {
                    self.count = self.count - 1;
                }
            },
            _ => {},
        }
    }

    /// Reads one byte; a line may hold at most `max` bytes.
    pub fn step(&mut self, b: u8, max: usize)
        requires
            lex_wf(old(self)@),
        ensures
            final(self)@ == step(old(self)@, b, max as nat),
            lex_wf(final(self)@),
    {
        if self.phase == Phase::Done || self.phase == Phase::Failed {
        } else if self.phase == Phase::Skip {
            if b == 10 {
                self.phase = Phase::Failed;
            }
        } else if self.used >= max {
            self.fail_at(b, Fault::TooLarge);
        } else {
            self.used = self.used + 1;
            self.step_in(b, max);
        }
    }
}

} // verus!
