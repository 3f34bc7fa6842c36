//! Mailbox names under the older protocol revision: modified UTF-7, where
//! `&` opens a run of modified base64 that encodes UTF-16 code units, `-`
//! closes it, and `&-` stands for `&` itself.
use vstd::prelude::*;
use vstd::utf8::{decode_utf8, encode_utf8, valid_utf8};
use vstd::string::StringSliceAdditionalSpecFns;

use crate::text::{string_from_utf16, string_from_utf8, utf16_text};

verus! {

/// The protocol revision a connection negotiated.
#[derive(Clone, Copy, Debug, PartialEq, Eq, Structural)]
pub enum ProtocolVersion {
    Rev1,
    Rev2,
}

pub open spec fn pow2(n: nat) -> nat
    decreases n,
{
    if n == 0 {
        1
    } else {
        2 * pow2((n - 1) as nat)
    }
}

/// The value of a digit of modified base64 (`,` in place of `/`).
pub open spec fn base64_value(b: u8) -> Option<nat> {
    if 65 <= b <= 90 {
        Some((b - 65) as nat)
    } else if 97 <= b <= 122 {
        Some((b - 97 + 26) as nat)
    } else if 48 <= b <= 57 {
        Some((b - 48 + 52) as nat)
    } else if b == 43 {
        Some(62)
    } else if b == 44 {
        Some(63)
    } else {
        None
    }
}

/// The decoder's state: inside a base64 run or not, the code units of the
/// run so far, the bits not yet making a whole unit, and the output bytes.
pub struct Utf7State {
    pub shift: bool,
    pub units: Seq<u16>,
    pub acc: nat,
    pub nbits: nat,
    pub out: Seq<u8>,
    pub ok: bool,
}

pub open spec fn utf7_initial() -> Utf7State {
    Utf7State { shift: false, units: Seq::empty(), acc: 0, nbits: 0, out: Seq::empty(), ok: true }
}

/// Adds one base64 digit to the run.
pub open spec fn add_digit(s: Utf7State, v: nat) -> Utf7State {
    let a = s.acc * 64 + v;
    let n = s.nbits + 6;
    if n >= 16 {
        let p = pow2((n - 16) as nat);
        Utf7State { units: s.units.push((a / p) as u16), acc: a % p, nbits: (n - 16) as nat, ..s }
    } else {
        Utf7State { acc: a, nbits: n, ..s }
    }
}

/// The end of a base64 run.
pub open spec fn close_run(s: Utf7State) -> Utf7State {
    if s.units.len() == 0 {
        if s.nbits == 0 {
            Utf7State { shift: false, out: s.out.push(38), ..s }
        } else {
            Utf7State { ok: false, ..s }
        }
    } else {
        match utf16_text(s.units) {
            Some(cs) => Utf7State {
                shift: false,
                units: Seq::empty(),
                acc: 0,
                nbits: 0,
                out: s.out + encode_utf8(cs),
                ok: true,
            },
            None => Utf7State { ok: false, ..s },
        }
    }
}

/// The decoder's move on one byte.
pub open spec fn utf7_step(s: Utf7State, b: u8) -> Utf7State {
    if !s.ok {
        s
    } else if !s.shift {
        if b == 38 {
            Utf7State { shift: true, units: Seq::empty(), acc: 0, nbits: 0, ..s }
        } else {
            Utf7State { out: s.out.push(b), ..s }
        }
    } else if b == 45 {
        close_run(s)
    } else {
        match base64_value(b) {
            Some(v) => add_digit(s, v),
            None => Utf7State { ok: false, ..s },
        }
    }
}

pub open spec fn utf7_run(b: Seq<u8>) -> Utf7State
    decreases b.len(),
{
    if b.len() == 0 {
        utf7_initial()
    } else {
        utf7_step(utf7_run(b.drop_last()), b.last())
    }
}

/// The bytes that modified UTF-7 text `b` decodes to; nothing when it is
/// malformed or ends inside a base64 run.
pub open spec fn utf7_decoded(b: Seq<u8>) -> Option<Seq<u8>> {
    let s = utf7_run(b);
    if s.ok && !s.shift {
        Some(s.out)
    } else {
        None
    }
}

/// A mailbox name as the grammars see it: under the older revision it is
/// decoded from modified UTF-7, and kept as it came when that fails.
pub open spec fn mailbox_text(name: Seq<char>, version: ProtocolVersion) -> Seq<char> {
    if version == ProtocolVersion::Rev2 {
        name
    } else {
        match utf7_decoded(encode_utf8(name)) {
            Some(out) => if valid_utf8(out) {
                decode_utf8(out)
            } else {
                name
            },
            None => name,
        }
    }
}

proof fn lemma_pow2_shift(n: nat)
    ensures
        pow2(n + 6) == pow2(n) * 64,
{
    reveal_with_fuel(pow2, 7);
}

proof fn lemma_pow2_mono(a: nat, b: nat)
    requires
        a <= b,
    ensures
        pow2(a) <= pow2(b),
    decreases b,
{
    if a < b {
        lemma_pow2_mono(a, (b - 1) as nat);
    }
}

/// A failed decode stays failed, whatever follows.
proof fn lemma_utf7_fails(text: Seq<u8>, k: int)
    requires
        0 <= k <= text.len(),
        !utf7_run(text.take(k)).ok,
    ensures
        !utf7_run(text).ok,
    decreases text.len(),
{
    if text.len() == k {
        assert(text.take(k) =~= text);
    } else {
        assert(text.drop_last().take(k) =~= text.take(k));
        lemma_utf7_fails(text.drop_last(), k);
    }
}

fn pow2_exec(n: u32) -> (r: u32)
    requires
        n <= 8,
    ensures
        r == pow2(n as nat),
{
    let mut r: u32 = 1;
    let mut i: u32 = 0;
    while i < n
        invariant
            i <= n <= 8,
            r == pow2(i as nat),
            r <= 256,
        decreases n - i,
    {
        proof {
            lemma_pow2_mono(i as nat, 7);
            reveal_with_fuel(pow2, 8);
        }
        r = r * 2;
        i = i + 1;
    }
    r
}

fn base64_value_exec(b: u8) -> (r: Option<u32>)
    ensures
        r matches Some(v) ==> base64_value(b) == Some(v as nat) && v < 64,
        r is None ==> base64_value(b) is None,
{
    if 65 <= b && b <= 90 {
        Some((b - 65) as u32)
    } else if 97 <= b && b <= 122 {
        Some((b - 97 + 26) as u32)
    } else if 48 <= b && b <= 57 {
        Some((b - 48 + 52) as u32)
    } else if b == 43 {
        Some(62)
    } else if b == 44 {
        Some(63)
    } else {
        None
    }
}

/// Adds a base64 digit to a run, handing out a code unit once 16 bits are in.
fn push_digit(units: &mut Vec<u16>, acc: u32, nbits: u32, v: u32) -> (r: (u32, u32))
    requires
        nbits < 16,
        acc < pow2(nbits as nat),
        v < 64,
    ensures
        ({
            let s = add_digit(
                Utf7State {
                    shift: true,
                    units: old(units)@,
                    acc: acc as nat,
                    nbits: nbits as nat,
                    out: Seq::empty(),
                    ok: true,
                },
                v as nat,
            );
            &&& final(units)@ == s.units
            &&& r.0 == s.acc
            &&& r.1 == s.nbits
        }),
        r.1 < 16,
        r.0 < pow2(r.1 as nat),
{
    proof {
        lemma_pow2_mono(nbits as nat, 15);
        reveal_with_fuel(pow2, 16);
        lemma_pow2_shift(nbits as nat);
    }
    let a = acc * 64 + v;
    let n = nbits + 6;
    if n >= 16 {
        let p = pow2_exec(n - 16);
        proof {
            reveal_with_fuel(pow2, 17);
            assert(pow2(n as nat) == p * 65536);
            assert(a / p < 65536) by (nonlinear_arith)
                requires
                    a < p * 65536,
                    p >= 1,
            ;
        }
        units.push((a / p) as u16);
        (a % p, n - 16)
    } else {
        (a, n)
    }
}

/// Decodes modified UTF-7 text into the bytes of the characters it encodes.
pub fn utf7_decode(text: &[u8]) -> (r: Option<Vec<u8>>)
    ensures
        r matches Some(v) ==> utf7_decoded(text@) == Some(v@),
        r is None ==> utf7_decoded(text@) is None,
{
    let mut shift = false;
    let mut units: Vec<u16> = Vec::new();
    let mut acc: u32 = 0;
    let mut nbits: u32 = 0;
    let mut out: Vec<u8> = Vec::new();
    let mut i: usize = 0;
    while i < text.len()
        invariant
            0 <= i <= text@.len(),
            utf7_run(text@.take(i as int)) == (Utf7State {
                shift,
                units: units@,
                acc: acc as nat,
                nbits: nbits as nat,
                out: out@,
                ok: true,
            }),
            nbits < 16,
            acc < pow2(nbits as nat),
        decreases text@.len() - i,
    {
        let b = text[i];
        proof {
            assert(text@.take(i + 1).drop_last() =~= text@.take(i as int));
        }
        if !shift {
            if b == 38 {
                shift = true;
                units = Vec::new();
                acc = 0;
                nbits = 0;
            } else {
                out.push(b);
            }
        } else if b == 45 {
            if units.len() == 0 {
                if nbits == 0 {
                    shift = false;
                    out.push(38);
                } else {
                    proof {
                        assert(text@.take(i + 1).drop_last() =~= text@.take(i as int));
                        lemma_utf7_fails(text@, i + 1);
                    }
                    return None;
                }
            } else {
                match string_from_utf16(units.as_slice()) {
                    Some(s) => {
                        let bytes = s.as_str().as_bytes();
                        let ghost before = out@;
                        let mut k: usize = 0;
                        while k < bytes.len()
                            invariant
                                0 <= k <= bytes@.len(),
                                out@ == before + bytes@.take(k as int),
                            decreases bytes@.len() - k,
                        {
                            out.push(bytes[k]);
                            k = k + 1;
                            assert(out@ =~= before + bytes@.take(k as int));
                        }
                        assert(bytes@.take(bytes@.len() as int) =~= bytes@);
                        shift = false;
                        units = Vec::new();
                        acc = 0;
                        nbits = 0;
                    },
                    None => {
                        proof {
                            lemma_utf7_fails(text@, i + 1);
                        }
                        return None;
                    },
                }
            }
        } else {
            match base64_value_exec(b) {
                Some(v) => {
                    let (a2, n2) = push_digit(&mut units, acc, nbits, v);
                    acc = a2;
                    nbits = n2;
                },
                None => {
                    proof {
                        lemma_utf7_fails(text@, i + 1);
                    }
                    return None;
                },
            }
        }
        i = i + 1;
    }
    assert(text@.take(text@.len() as int) =~= text@);
    if shift {
        None
    } else {
        Some(out)
    }
}

/// The mailbox name that `text` stands for under `version`.
pub fn utf7_maybe_decode(text: String, version: ProtocolVersion) -> (r: String)
    ensures
        r@ == mailbox_text(text@, version),
{
    if version == ProtocolVersion::Rev2 {
        text
    } else {
        match utf7_decode(text.as_str().as_bytes()) {
            Some(out) => match string_from_utf8(out) {
                Some(s) => s,
                None => text,
            },
            None => text,
        }
    }
}

} // verus!
