//! Diagnostic rendering: a symbol as its display name, optionally annotated
//! with its terminal code, and a term set as the space-separated display
//! names of the terminals it contains. For debug output only; nothing on the
//! construction path calls these.
use vstd::prelude::*;
use vstd::string::StringExecFns;

use crate::symbols::Symb;
use crate::symbols::Symbs;
use crate::term_sets::ts_has;
use crate::term_sets::TermSet;
use crate::term_sets::TermSets;

verus! {

/// The character for the decimal digit `d`.
pub open spec fn digit_char(d: int) -> char {
    if d == 0 {
        '0'
    } else if d == 1 {
        '1'
    } else if d == 2 {
        '2'
    } else if d == 3 {
        '3'
    } else if d == 4 {
        '4'
    } else if d == 5 {
        '5'
    } else if d == 6 {
        '6'
    } else if d == 7 {
        '7'
    } else if d == 8 {
        '8'
    } else {
        '9'
    }
}

/// The decimal digits of `n`, most significant first.
pub open spec fn spec_decimal(n: int) -> Seq<char>
    decreases n,
{
    if n < 10 {
        seq![digit_char(n)]
    } else {
        spec_decimal(n / 10).push(digit_char(n % 10))
    }
}

/// One decimal digit as a string slice.
fn digit_str(d: u32) -> (r: &'static str)
    requires
        d < 10,
    ensures
        r@ =~= seq![digit_char(d as int)],
{
    proof {
        reveal_strlit("0");
        reveal_strlit("1");
        reveal_strlit("2");
        reveal_strlit("3");
        reveal_strlit("4");
        reveal_strlit("5");
        reveal_strlit("6");
        reveal_strlit("7");
        reveal_strlit("8");
        reveal_strlit("9");
    }
    if d == 0 {
        "0"
    } else if d == 1 {
        "1"
    } else if d == 2 {
        "2"
    } else if d == 3 {
        "3"
    } else if d == 4 {
        "4"
    } else if d == 5 {
        "5"
    } else if d == 6 {
        "6"
    } else if d == 7 {
        "7"
    } else if d == 8 {
        "8"
    } else {
        "9"
    }
}

/// Renders `n` in decimal.
pub fn decimal_string(n: u32) -> (r: String)
    ensures
        r@ == spec_decimal(n as int),
    decreases n,
{
    if n < 10 {
        String::from_str(digit_str(n))
    } else {
        let mut s = decimal_string(n / 10);
        s.append(digit_str(n % 10));
        proof {
            assert(s@ =~= spec_decimal(n as int));
        }
        s
    }
}

/// What `symb_print` renders: the display name, and for a terminal, when
/// asked, its code in parentheses.
pub open spec fn spec_symb_print(s: Symb, code_p: bool) -> Seq<char> {
    if code_p && s.is_term() {
        s.repr@ + seq!['('] + spec_decimal(s.spec_code() as int) + seq![')']
    } else {
        s.repr@
    }
}

/// Renders the symbol's display name; a terminal is annotated with its code
/// when `code_p` asks for it.
pub fn symb_print(s: &Symb, code_p: bool) -> (r: String)
    ensures
        r@ == spec_symb_print(*s, code_p),
{
    proof {
        reveal_strlit("(");
        reveal_strlit(")");
    }
    let mut out = s.repr.clone();
    if code_p {
        match &s.kind {
            crate::symbols::KindSymbInfo::Terminal(t) => {
                out.append("(");
                let digits = decimal_string(t.code);
                out.append(digits.as_str());
                out.append(")");
                proof {
                    assert(out@ =~= spec_symb_print(*s, code_p));
                }
            },
            crate::symbols::KindSymbInfo::Nonterminal(_) => {},
        }
    }
    out
}

/// What `term_set_print` renders over the first `t` terminals: a space and
/// the display name of each terminal whose bit is set, in terminal order.
pub open spec fn spec_set_print(symbs: Symbs, words: Seq<u64>, t: int) -> Seq<char>
    decreases t,
{
    if t <= 0 {
        Seq::empty()
    } else {
        spec_set_print(symbs, words, t - 1) + (if ts_has(words, t - 1) {
            seq![' '] + symbs.symbols()[symbs.spec_terms()[t - 1] as int].repr@
        } else {
            Seq::empty()
        })
    }
}

/// Renders the space-separated display names of the terminals in `set`, in
/// terminal-creation order.
pub fn term_set_print(symbs: &Symbs, sets: &TermSets, set: &TermSet) -> (r: String)
    requires
        symbs.wf(),
        sets.wf(),
        sets.spec_n_terms() == symbs.spec_terms().len(),
        set@.len() == sets.spec_words(),
    ensures
        r@ == spec_set_print(*symbs, set@, symbs.spec_terms().len() as int),
{
    proof {
        reveal_strlit(" ");
    }
    let mut out = String::new();
    let n = symbs.n_terms();
    let mut t: usize = 0;
    while t < n
        invariant
            symbs.wf(),
            sets.wf(),
            sets.spec_n_terms() == symbs.spec_terms().len(),
            set@.len() == sets.spec_words(),
            n == symbs.spec_terms().len(),
            t <= n,
            (" "@) =~= seq![' '],
            out@ == spec_set_print(*symbs, set@, t as int),
        decreases n - t,
    {
        if sets.test_bit(set, t) {
            out.append(" ");
            match symbs.term_get(t) {
                Some(sym) => {
                    out.append(sym.repr.as_str());
                },
                None => {},
            }
        }
        t = t + 1;
    }
    out
}

} // verus!
