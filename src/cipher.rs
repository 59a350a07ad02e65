//! Letter ciphers: each ASCII letter counts by its place in the alphabet,
//! read forwards (Standard), backwards (Reverse) or folded to one digit
//! (Reduction). Every other character is skipped.
use vstd::prelude::*;
use vstd::string::StrSliceExecFns;
use vstd::string::StringExecFns;
use crate::text::{dec, push_decimal};

verus! {

#[derive(Clone, Copy, Debug, PartialEq, Eq, Structural)]
pub enum CipherKind {
    Standard,
    Reverse,
    Reduction,
}

impl CipherKind {
    pub open spec fn name_spec(self) -> Seq<char> {
        match self {
            CipherKind::Standard => "Standard"@,
            CipherKind::Reverse => "Reverse"@,
            CipherKind::Reduction => "Reduction"@,
        }
    }

    /// The display name of the cipher.
    pub fn name(&self) -> (r: &'static str)
        ensures
            r@ == self.name_spec(),
    {
        match self {
            CipherKind::Standard => "Standard",
            CipherKind::Reverse => "Reverse",
            CipherKind::Reduction => "Reduction",
        }
    }
}

/// One cipher's score on a text, with how the score was made up.
#[derive(Clone, Debug)]
pub struct CipherResult {
    pub kind: CipherKind,
    pub score: u128,
    pub breakdown: String,
}

pub struct CipherResultView {
    pub kind: CipherKind,
    pub score: nat,
    pub breakdown: Seq<char>,
}

impl View for CipherResult {
    type V = CipherResultView;

    open spec fn view(&self) -> CipherResultView {
        CipherResultView { kind: self.kind, score: self.score as nat, breakdown: self.breakdown@ }
    }
}

pub open spec fn is_letter(c: char) -> bool {
    ('A' <= c && c <= 'Z') || ('a' <= c && c <= 'z')
}

/// Place in the alphabet of an ASCII letter, either case: A = 1 ... Z = 26.
pub open spec fn letter_position(c: char) -> nat {
    if 'a' <= c && c <= 'z' {
        (c as int - 'a' as int + 1) as nat
    } else {
        (c as int - 'A' as int + 1) as nat
    }
}

/// The alphabet places of the letters of `t`, in order.
pub open spec fn positions(t: Seq<char>) -> Seq<nat>
    decreases t.len(),
{
    if t.len() == 0 {
        seq![]
    } else if is_letter(t.last()) {
        positions(t.drop_last()).push(letter_position(t.last()))
    } else {
        positions(t.drop_last())
    }
}

pub open spec fn cipher_value(kind: CipherKind, p: nat) -> nat {
    match kind {
        CipherKind::Standard => p,
        CipherKind::Reverse => (27 - p) as nat,
        CipherKind::Reduction => ((p - 1) % 9 + 1) as nat,
    }
}

pub open spec fn values(kind: CipherKind, ps: Seq<nat>) -> Seq<nat> {
    ps.map_values(|p: nat| cipher_value(kind, p))
}

pub open spec fn total(s: Seq<nat>) -> nat
    decreases s.len(),
{
    if s.len() == 0 {
        0
    } else {
        total(s.drop_last()) + s.last()
    }
}

/// The numbers of `s` in decimal, joined by `+`.
pub open spec fn join_plus(s: Seq<nat>) -> Seq<char>
    decreases s.len(),
{
    if s.len() == 0 {
        seq![]
    } else if s.len() == 1 {
        dec(s[0])
    } else {
        join_plus(s.drop_last()) + seq!['+'] + dec(s.last())
    }
}

/// The fixed note that stands for the Reduction cipher's breakdown.
pub open spec fn reduction_note() -> Seq<char> {
    "letters folded to 1-9"@
}

pub open spec fn breakdown_of(kind: CipherKind, ps: Seq<nat>) -> Seq<char> {
    match kind {
        CipherKind::Reduction => if ps.len() == 0 {
            seq![]
        } else {
            reduction_note()
        },
        _ => join_plus(values(kind, ps)),
    }
}

pub open spec fn cipher_entry(kind: CipherKind, t: Seq<char>) -> CipherResultView {
    CipherResultView {
        kind,
        score: total(values(kind, positions(t))),
        breakdown: breakdown_of(kind, positions(t)),
    }
}

/// The three ciphers of `t` in their fixed order; nothing for an empty text.
pub open spec fn analysis(t: Seq<char>) -> Seq<CipherResultView> {
    if t.len() == 0 {
        seq![]
    } else {
        seq![
            cipher_entry(CipherKind::Standard, t),
            cipher_entry(CipherKind::Reverse, t),
            cipher_entry(CipherKind::Reduction, t),
        ]
    }
}

proof fn lemma_values_push(kind: CipherKind, ps: Seq<nat>, p: nat)
    ensures
        values(kind, ps.push(p)) == values(kind, ps).push(cipher_value(kind, p)),
        total(values(kind, ps.push(p))) == total(values(kind, ps)) + cipher_value(kind, p),
        join_plus(values(kind, ps.push(p))) == if ps.len() == 0 {
            dec(cipher_value(kind, p))
        } else {
            join_plus(values(kind, ps)) + seq!['+'] + dec(cipher_value(kind, p))
        },
{
    let v = values(kind, ps.push(p));
    assert(v =~= values(kind, ps).push(cipher_value(kind, p)));
    assert(v.drop_last() =~= values(kind, ps));
}

/// Inserting a character that is not a letter leaves the letter places as
/// they were.
pub proof fn lemma_positions_skip(a: Seq<char>, c: char, b: Seq<char>)
    requires
        !is_letter(c),
    ensures
        positions(a + seq![c] + b) == positions(a + b),
    decreases b.len(),
{
    if b.len() == 0 {
        assert((a + seq![c] + b).drop_last() =~= a);
        assert(a + b =~= a);
    } else {
        lemma_positions_skip(a, c, b.drop_last());
        assert((a + seq![c] + b).drop_last() =~= a + seq![c] + b.drop_last());
        assert((a + b).drop_last() =~= a + b.drop_last());
        assert((a + seq![c] + b).last() == b.last());
        assert((a + b).last() == b.last());
    }
}

/// Characters that are not letters do not count: a text with one inserted
/// is analysed exactly as the text without it.
pub proof fn lemma_non_letter_ignored(a: Seq<char>, c: char, b: Seq<char>)
    requires
        !is_letter(c),
        (a + b).len() > 0,
    ensures
        analysis(a + seq![c] + b) == analysis(a + b),
{
    lemma_positions_skip(a, c, b);
}

fn letter_position_exec(c: char) -> (r: Option<u128>)
    ensures
        r is Some <==> is_letter(c),
        r is Some ==> r->0 as nat == letter_position(c) && 1 <= r->0 <= 26,
{
    if 'a' <= c && c <= 'z' {
        Some((c as u32 - 'a' as u32 + 1) as u128)
    } else if 'A' <= c && c <= 'Z' {
        Some((c as u32 - 'A' as u32 + 1) as u128)
    } else {
        None
    }
}

/// Runs the three ciphers over `text`: Standard, Reverse and Reduction, in
/// that order, or no result at all for an empty text.
pub fn analyze(text: &str) -> (r: Vec<CipherResult>)
    ensures
        r@.map_values(|x: CipherResult| x@) == analysis(text@),
{
    let n = text.unicode_len();
    if n == 0 {
        let r: Vec<CipherResult> = Vec::new();
        assert(r@.map_values(|x: CipherResult| x@) =~= analysis(text@));
        return r;
    }
    proof {
        reveal_strlit("+");
    }
    let mut i: usize = 0;
    let mut count: usize = 0;
    let mut s1: u128 = 0;
    let mut s2: u128 = 0;
    let mut s3: u128 = 0;
    let mut b1 = String::new();
    let mut b2 = String::new();
    while i < n
        invariant
            n == text@.len(),
            i <= n,
            count == positions(text@.subrange(0, i as int)).len(),
            count <= i,
            s1 <= 26 * i,
            s2 <= 26 * i,
            s3 <= 26 * i,
            s1 as nat == total(values(CipherKind::Standard, positions(text@.subrange(0, i as int)))),
            s2 as nat == total(values(CipherKind::Reverse, positions(text@.subrange(0, i as int)))),
            s3 as nat == total(
                values(CipherKind::Reduction, positions(text@.subrange(0, i as int))),
            ),
            b1@ == join_plus(values(CipherKind::Standard, positions(text@.subrange(0, i as int)))),
            b2@ == join_plus(values(CipherKind::Reverse, positions(text@.subrange(0, i as int)))),
            "+"@ == seq!['+'],
        decreases n - i,
    {
        let c = text.get_char(i);
        let ghost pre = text@.subrange(0, i as int);
        let ghost ps = positions(pre);
        proof {
            assert(text@.subrange(0, i + 1) =~= pre.push(c));
            assert(text@.subrange(0, i + 1).drop_last() =~= pre);
        }
        match letter_position_exec(c) {
            Some(p) => {
                proof {
                    lemma_values_push(CipherKind::Standard, ps, p as nat);
                    lemma_values_push(CipherKind::Reverse, ps, p as nat);
                    lemma_values_push(CipherKind::Reduction, ps, p as nat);
                }
                if count > 0 {
                    b1.append("+");
                    b2.append("+");
                }
                push_decimal(&mut b1, p);
                push_decimal(&mut b2, 27 - p);
                s1 = s1 + p;
                s2 = s2 + (27 - p);
                s3 = s3 + ((p - 1) % 9 + 1);
                count = count + 1;
            },
            None => {},
        }
        i = i + 1;
    }
    assert(text@.subrange(0, n as int) =~= text@);
    let note = if count == 0 {
        String::new()
    } else {
        String::from_str("letters folded to 1-9")
    };
    let mut r: Vec<CipherResult> = Vec::new();
    r.push(CipherResult { kind: CipherKind::Standard, score: s1, breakdown: b1 });
    r.push(CipherResult { kind: CipherKind::Reverse, score: s2, breakdown: b2 });
    r.push(CipherResult { kind: CipherKind::Reduction, score: s3, breakdown: note });
    assert(r@.map_values(|x: CipherResult| x@) =~= analysis(text@));
    r
}

} // verus!
