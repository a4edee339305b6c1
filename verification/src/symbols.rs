//! The symbol table: append-only records for terminals and nonterminals,
//! looked up by display name or, for terminals, by external code, with an
//! optional dense code-to-symbol array built once terminal addition ends.
use vstd::prelude::*;

use crate::GrammarError;

verus! {

/// Payload of a terminal symbol.
#[derive(Debug)]
pub struct TerminalSymbInfo {
    /// Externally assigned integer code, unique among terminals.
    pub code: u32,
    /// Dense index among terminals, in terminal-creation order.
    pub term_num: usize,
}

/// Payload of a nonterminal symbol.
#[derive(Debug)]
pub struct NonterminalSymbInfo {
    /// Rule ids whose left-hand side is this nonterminal, in creation order.
    pub rules: Vec<usize>,
    /// Dense index among nonterminals, in nonterminal-creation order.
    pub nonterm_num: usize,
    /// Whether the nonterminal may derive itself; set by external analysis.
    pub loop_p: bool,
    /// Canonical id of the FIRST set, once interned; initially unset.
    pub first: Option<usize>,
    /// Canonical id of the FOLLOW set, once interned; initially unset.
    pub follow: Option<usize>,
}

/// The kind of a symbol, with the fields particular to that kind.
#[derive(Debug)]
pub enum KindSymbInfo {
    Terminal(TerminalSymbInfo),
    Nonterminal(NonterminalSymbInfo),
}

/// One grammar symbol.
#[derive(Debug)]
pub struct Symb {
    /// Display name, unique across the whole table.
    pub repr: String,
    /// Terminal or nonterminal payload.
    pub kind: KindSymbInfo,
    /// Whether the symbol is reachable from the axiom; set by external analysis.
    pub access_p: bool,
    /// Whether the symbol derives some terminal string; set by external analysis.
    pub derivation_p: bool,
    /// Whether the symbol may derive the empty string; set by external analysis.
    pub empty_p: bool,
    /// Dense index over all symbols, in creation order.
    pub num: usize,
}

impl Symb {
    /// Whether this symbol is a terminal.
    pub open spec fn is_term(self) -> bool {
        self.kind is Terminal
    }

    /// The terminal code, or 0 for a nonterminal.
    pub open spec fn spec_code(self) -> u32 {
        match self.kind {
            KindSymbInfo::Terminal(t) => t.code,
            KindSymbInfo::Nonterminal(_) => 0,
        }
    }

    /// The dense terminal index, or 0 for a nonterminal.
    pub open spec fn spec_term_num(self) -> usize {
        match self.kind {
            KindSymbInfo::Terminal(t) => t.term_num,
            KindSymbInfo::Nonterminal(_) => 0,
        }
    }

    /// The dense nonterminal index, or 0 for a terminal.
    pub open spec fn spec_nonterm_num(self) -> usize {
        match self.kind {
            KindSymbInfo::Terminal(_) => 0,
            KindSymbInfo::Nonterminal(n) => n.nonterm_num,
        }
    }

    /// The rule ids owned by a nonterminal, or the empty sequence for a terminal.
    pub open spec fn spec_rules(self) -> Seq<usize> {
        match self.kind {
            KindSymbInfo::Terminal(_) => Seq::empty(),
            KindSymbInfo::Nonterminal(n) => n.rules@,
        }
    }

    /// The self-derivability flag of a nonterminal, or false for a terminal.
    pub open spec fn spec_loop_p(self) -> bool {
        match self.kind {
            KindSymbInfo::Terminal(_) => false,
            KindSymbInfo::Nonterminal(n) => n.loop_p,
        }
    }

    /// The interned FIRST-set id of a nonterminal, or `None` for a terminal.
    pub open spec fn spec_first(self) -> Option<usize> {
        match self.kind {
            KindSymbInfo::Terminal(_) => None,
            KindSymbInfo::Nonterminal(n) => n.first,
        }
    }

    /// The interned FOLLOW-set id of a nonterminal, or `None` for a terminal.
    pub open spec fn spec_follow(self) -> Option<usize> {
        match self.kind {
            KindSymbInfo::Terminal(_) => None,
            KindSymbInfo::Nonterminal(n) => n.follow,
        }
    }

    /// No analysis flag has been set on the symbol yet.
    pub open spec fn fresh(self) -> bool {
        !self.access_p && !self.derivation_p && !self.empty_p
    }
}

/// The nonterminal payload of a symbol; arbitrary for a terminal.
pub open spec fn nonterm_info(s: Symb) -> NonterminalSymbInfo {
    match s.kind {
        KindSymbInfo::Terminal(_) => arbitrary(),
        KindSymbInfo::Nonterminal(n) => n,
    }
}

/// Whether some symbol in `symbs` carries the display name `name`.
pub open spec fn has_name(symbs: Seq<Symb>, name: Seq<char>) -> bool {
    exists|i: int| 0 <= i < symbs.len() && #[trigger] symbs[i].repr@ == name
}

/// Whether some terminal in `symbs` carries the code `code`.
pub open spec fn has_term_code(symbs: Seq<Symb>, code: u32) -> bool {
    exists|i: int|
        0 <= i < symbs.len() && #[trigger] symbs[i].is_term() && symbs[i].spec_code() == code
}

/// When the span from the least to the greatest terminal code is below this
/// bound, finalizing terminal addition builds a dense code-to-symbol array.
pub const CODE_VECT_BOUND: u32 = 10000;

/// The symbol table. Symbols are append-only; `clear` resets the whole table.
pub struct Symbs {
    /// All symbols; the position of a symbol equals its `num`.
    symbs: Vec<Symb>,
    /// Positions of the terminals in `symbs`, in terminal-creation order.
    terms: Vec<usize>,
    /// Positions of the nonterminals in `symbs`, in nonterminal-creation order.
    nonterms: Vec<usize>,
    /// Dense code-to-symbol array; empty unless `code_vect_built`.
    code_vect: Vec<Option<usize>>,
    /// The code that the first entry of `code_vect` stands for.
    code_vect_start: u32,
    /// Whether the dense code lookup path is active.
    code_vect_built: bool,
    /// Whether terminal addition has been finalized.
    terms_finalized: bool,
}

impl Symbs {
    /// All symbols in creation order.
    pub closed spec fn symbols(self) -> Seq<Symb> {
        self.symbs@
    }

    /// Positions of the terminals in `symbols()`, in terminal-creation order.
    pub closed spec fn spec_terms(self) -> Seq<usize> {
        self.terms@
    }

    /// Positions of the nonterminals in `symbols()`, in nonterminal-creation order.
    pub closed spec fn spec_nonterms(self) -> Seq<usize> {
        self.nonterms@
    }

    /// Whether `finish_adding_terms` has run since the table was last empty.
    pub closed spec fn finalized(self) -> bool {
        self.terms_finalized
    }

    /// Every entry of the dense code array is exactly what a search of the
    /// symbol list would find for the code it stands for.
    spec fn code_vect_wf(self) -> bool {
        &&& self.code_vect@.len() + self.code_vect_start <= u32::MAX + 1
        &&& forall|k: int|
            0 <= k < self.code_vect@.len() ==> match #[trigger] self.code_vect@[k] {
                Some(i) => i < self.symbs@.len() && self.symbs@[i as int].is_term()
                    && self.symbs@[i as int].spec_code() == self.code_vect_start + k,
                None => !has_term_code(self.symbs@, (self.code_vect_start + k) as u32),
            }
        &&& forall|i: int|
            0 <= i < self.symbs@.len() && (#[trigger] self.symbs@[i]).is_term()
                ==> self.code_vect_start <= self.symbs@[i].spec_code()
                    < self.code_vect_start + self.code_vect@.len()
    }

    /// Internal consistency of the table.
    pub closed spec fn wf(self) -> bool {
        &&& self.symbs@.len() == self.terms@.len() + self.nonterms@.len()
        &&& forall|i: int| 0 <= i < self.symbs@.len() ==> (#[trigger] self.symbs@[i]).num == i
        &&& forall|j: int|
            0 <= j < self.terms@.len() ==> #[trigger] self.terms@[j] < self.symbs@.len()
                && self.symbs@[self.terms@[j] as int].is_term()
                && self.symbs@[self.terms@[j] as int].spec_term_num() == j
        &&& forall|j: int|
            0 <= j < self.nonterms@.len() ==> #[trigger] self.nonterms@[j] < self.symbs@.len()
                && !self.symbs@[self.nonterms@[j] as int].is_term()
                && self.symbs@[self.nonterms@[j] as int].spec_nonterm_num() == j
        &&& forall|i: int|
            0 <= i < self.symbs@.len() && (#[trigger] self.symbs@[i]).is_term()
                ==> self.symbs@[i].spec_term_num() < self.terms@.len()
                    && self.terms@[self.symbs@[i].spec_term_num() as int] == i
        &&& forall|i: int|
            0 <= i < self.symbs@.len() && !(#[trigger] self.symbs@[i]).is_term()
                ==> self.symbs@[i].spec_nonterm_num() < self.nonterms@.len()
                    && self.nonterms@[self.symbs@[i].spec_nonterm_num() as int] == i
        &&& forall|j1: int, j2: int|
            0 <= j1 < j2 < self.terms@.len() ==> #[trigger] self.terms@[j1] < #[trigger] self.terms@[j2]
        &&& forall|j1: int, j2: int|
            0 <= j1 < j2 < self.nonterms@.len()
                ==> #[trigger] self.nonterms@[j1] < #[trigger] self.nonterms@[j2]
        &&& forall|i1: int, i2: int|
            0 <= i1 < i2 < self.symbs@.len()
                ==> (#[trigger] self.symbs@[i1]).repr@ != (#[trigger] self.symbs@[i2]).repr@
        &&& forall|i1: int, i2: int|
            0 <= i1 < i2 < self.symbs@.len() && (#[trigger] self.symbs@[i1]).is_term()
                && (#[trigger] self.symbs@[i2]).is_term()
                ==> self.symbs@[i1].spec_code() != self.symbs@[i2].spec_code()
        &&& if self.code_vect_built {
            self.terms@.len() > 0 && self.code_vect_wf()
        } else {
            self.code_vect@.len() == 0
        }
        &&& self.code_vect_built ==> self.terms_finalized
    }

    /// Creates an empty symbol table.
    pub fn new() -> (r: Symbs)
        ensures
            r.wf(),
            r.symbols() =~= Seq::<Symb>::empty(),
            r.spec_terms() =~= Seq::<usize>::empty(),
            r.spec_nonterms() =~= Seq::<usize>::empty(),
            !r.finalized(),
    {
        Symbs {
            symbs: Vec::new(),
            terms: Vec::new(),
            nonterms: Vec::new(),
            code_vect: Vec::new(),
            code_vect_start: 0,
            code_vect_built: false,
            terms_finalized: false,
        }
    }

    /// The number of terminals added so far.
    pub fn n_terms(&self) -> (r: usize)
        ensures
            r == self.spec_terms().len(),
    {
        self.terms.len()
    }

    /// The number of nonterminals added so far.
    pub fn n_nonterms(&self) -> (r: usize)
        ensures
            r == self.spec_nonterms().len(),
    {
        self.nonterms.len()
    }

    /// Returns the symbol whose display name is `repr`, if any.
    pub fn symb_by_repr(&self, repr: &String) -> (r: Option<&Symb>)
        requires
            self.wf(),
        ensures
            match r {
                Some(s) => s.num < self.symbols().len() && *s == self.symbols()[s.num as int]
                    && s.repr@ == repr@,
                None => !has_name(self.symbols(), repr@),
            },
    {
        let mut i: usize = 0;
        while i < self.symbs.len()
            invariant
                self.wf(),
                i <= self.symbs@.len(),
                forall|j: int| 0 <= j < i ==> (#[trigger] self.symbs@[j]).repr@ != repr@,
            decreases self.symbs@.len() - i,
        {
            if self.symbs[i].repr == *repr {
                return Some(&self.symbs[i]);
            }
            i = i + 1;
        }
        None
    }

    /// Returns the terminal whose code is `code`, if any, through the dense
    /// code array when it is built and through a search of the terminal list
    /// otherwise; the two paths agree on every code.
    pub fn symb_by_code(&self, code: u32) -> (r: Option<&Symb>)
        requires
            self.wf(),
        ensures
            match r {
                Some(s) => s.num < self.symbols().len() && *s == self.symbols()[s.num as int]
                    && s.is_term() && s.spec_code() == code,
                None => !has_term_code(self.symbols(), code),
            },
    {
        if self.code_vect_built {
            if code < self.code_vect_start {
                return None;
            }
            let slot = (code - self.code_vect_start) as usize;
            if slot >= self.code_vect.len() {
                return None;
            }
            match self.code_vect[slot] {
                Some(i) => Some(&self.symbs[i]),
                None => None,
            }
        } else {
            let mut j: usize = 0;
            while j < self.terms.len()
                invariant
                    self.wf(),
                    j <= self.terms@.len(),
                    forall|t: int|
                        0 <= t < j ==> self.symbs@[#[trigger] self.terms@[t] as int].spec_code()
                            != code,
                decreases self.terms@.len() - j,
            {
                let idx = self.terms[j];
                match &self.symbs[idx].kind {
                    KindSymbInfo::Terminal(t) => {
                        if t.code == code {
                            return Some(&self.symbs[idx]);
                        }
                    },
                    KindSymbInfo::Nonterminal(_) => {},
                }
                j = j + 1;
            }
            proof {
                assert forall|i: int|
                    0 <= i < self.symbs@.len() && (#[trigger] self.symbs@[i]).is_term()
                        implies self.symbs@[i].spec_code() != code by {
                    let t = self.symbs@[i].spec_term_num() as int;
                    assert(self.symbs@[self.terms@[t] as int].spec_code() != code);
                }
            }
            None
        }
    }

    /// Adds a terminal with display name `name` and external code `code`.
    /// On success the new symbol takes the next overall and terminal indices
    /// and both lookups find it; on failure the table is left unchanged.
    pub fn add_term(&mut self, name: String, code: u32) -> (r: Result<usize, GrammarError>)
        requires
            old(self).wf(),
            !old(self).finalized(),
        ensures
            final(self).wf(),
            !final(self).finalized(),
            if has_name(old(self).symbols(), name@) {
                r == Result::<usize, GrammarError>::Err(GrammarError::DuplicateName)
                    && *final(self) == *old(self)
            } else if has_term_code(old(self).symbols(), code) {
                r == Result::<usize, GrammarError>::Err(GrammarError::DuplicateCode)
                    && *final(self) == *old(self)
            } else {
                &&& r == Result::<usize, GrammarError>::Ok(old(self).symbols().len() as usize)
                &&& final(self).symbols().len() == old(self).symbols().len() + 1
                &&& final(self).symbols().drop_last() =~= old(self).symbols()
                &&& final(self).symbols().last().repr == name
                &&& final(self).symbols().last().kind == KindSymbInfo::Terminal(
                    TerminalSymbInfo { code, term_num: old(self).spec_terms().len() as usize },
                )
                &&& final(self).symbols().last().fresh()
                &&& final(self).symbols().last().num == old(self).symbols().len()
                &&& final(self).spec_terms() =~= old(self).spec_terms().push(
                    old(self).symbols().len() as usize,
                )
                &&& final(self).spec_nonterms() == old(self).spec_nonterms()
            },
    {
        if self.symb_by_repr(&name).is_some() {
            return Err(GrammarError::DuplicateName);
        }
        if self.symb_by_code(code).is_some() {
            return Err(GrammarError::DuplicateCode);
        }
        let num = self.symbs.len();
        let term_num = self.terms.len();
        let s = Symb {
            repr: name,
            kind: KindSymbInfo::Terminal(TerminalSymbInfo { code, term_num }),
            access_p: false,
            derivation_p: false,
            empty_p: false,
            num,
        };
        self.terms.push(num);
        self.symbs.push(s);
        Ok(num)
    }

    /// Adds a nonterminal with display name `name`. On success the new symbol
    /// takes the next overall and nonterminal indices, owns no rules yet, and
    /// lookup by name finds it; on failure the table is left unchanged.
    pub fn add_nonterm(&mut self, name: String) -> (r: Result<usize, GrammarError>)
        requires
            old(self).wf(),
        ensures
            final(self).wf(),
            final(self).finalized() == old(self).finalized(),
            if has_name(old(self).symbols(), name@) {
                r == Result::<usize, GrammarError>::Err(GrammarError::DuplicateName)
                    && *final(self) == *old(self)
            } else {
                &&& r == Result::<usize, GrammarError>::Ok(old(self).symbols().len() as usize)
                &&& final(self).symbols().len() == old(self).symbols().len() + 1
                &&& final(self).symbols().drop_last() =~= old(self).symbols()
                &&& final(self).symbols().last().repr == name
                &&& !final(self).symbols().last().is_term()
                &&& final(self).symbols().last().spec_nonterm_num() == old(self).spec_nonterms().len()
                &&& final(self).symbols().last().spec_rules() =~= Seq::<usize>::empty()
                &&& !final(self).symbols().last().spec_loop_p()
                &&& final(self).symbols().last().spec_first() is None
                &&& final(self).symbols().last().spec_follow() is None
                &&& final(self).symbols().last().fresh()
                &&& final(self).symbols().last().num == old(self).symbols().len()
                &&& final(self).spec_nonterms() =~= old(self).spec_nonterms().push(
                    old(self).symbols().len() as usize,
                )
                &&& final(self).spec_terms() == old(self).spec_terms()
            },
    {
        if self.symb_by_repr(&name).is_some() {
            return Err(GrammarError::DuplicateName);
        }
        let num = self.symbs.len();
        let nonterm_num = self.nonterms.len();
        let s = Symb {
            repr: name,
            kind: KindSymbInfo::Nonterminal(
                NonterminalSymbInfo {
                    rules: Vec::new(),
                    nonterm_num,
                    loop_p: false,
                    first: None,
                    follow: None,
                },
            ),
            access_p: false,
            derivation_p: false,
            empty_p: false,
            num,
        };
        self.nonterms.push(num);
        self.symbs.push(s);
        Ok(num)
    }

    /// Returns the `n`-th symbol in creation order, if any. The stored
    /// symbol's own index always matches `n`.
    pub fn get(&self, n: usize) -> (r: Option<&Symb>)
        requires
            self.wf(),
        ensures
            match r {
                Some(s) => n < self.symbols().len() && *s == self.symbols()[n as int]
                    && s.num == n,
                None => n >= self.symbols().len(),
            },
    {
        if n < self.symbs.len() {
            Some(&self.symbs[n])
        } else {
            None
        }
    }

    /// Returns the `n`-th terminal in terminal-creation order, if any; its
    /// stored terminal index always matches `n`.
    pub fn term_get(&self, n: usize) -> (r: Option<&Symb>)
        requires
            self.wf(),
        ensures
            match r {
                Some(s) => n < self.spec_terms().len()
                    && *s == self.symbols()[self.spec_terms()[n as int] as int]
                    && s.is_term() && s.spec_term_num() == n,
                None => n >= self.spec_terms().len(),
            },
    {
        if n < self.terms.len() {
            let idx = self.terms[n];
            Some(&self.symbs[idx])
        } else {
            None
        }
    }

    /// Returns the `n`-th nonterminal in nonterminal-creation order, if any;
    /// its stored nonterminal index always matches `n`.
    pub fn nonterm_get(&self, n: usize) -> (r: Option<&Symb>)
        requires
            self.wf(),
        ensures
            match r {
                Some(s) => n < self.spec_nonterms().len()
                    && *s == self.symbols()[self.spec_nonterms()[n as int] as int]
                    && !s.is_term() && s.spec_nonterm_num() == n,
                None => n >= self.spec_nonterms().len(),
            },
    {
        if n < self.nonterms.len() {
            let idx = self.nonterms[n];
            Some(&self.symbs[idx])
        } else {
            None
        }
    }

    /// Resets the table to empty; every previously issued symbol id becomes
    /// invalid.
    pub fn clear(&mut self)
        ensures
            final(self).wf(),
            final(self).symbols() =~= Seq::<Symb>::empty(),
            final(self).spec_terms() =~= Seq::<usize>::empty(),
            final(self).spec_nonterms() =~= Seq::<usize>::empty(),
            !final(self).finalized(),
    {
        self.symbs = Vec::new();
        self.terms = Vec::new();
        self.nonterms = Vec::new();
        self.code_vect = Vec::new();
        self.code_vect_start = 0;
        self.code_vect_built = false;
        self.terms_finalized = false;
    }

    /// The code of a terminal symbol; 0 for a nonterminal, as `spec_code` says.
    fn code_of(s: &Symb) -> (r: u32)
        ensures
            r == s.spec_code(),
    {
        match &s.kind {
            KindSymbInfo::Terminal(t) => t.code,
            KindSymbInfo::Nonterminal(_) => 0,
        }
    }

    /// Ends terminal addition. When the span of terminal codes is below
    /// `CODE_VECT_BOUND`, builds the dense code-to-symbol array that
    /// `symb_by_code` then answers from; the symbols themselves, and with
    /// them the result of every lookup, are left unchanged.
    pub fn finish_adding_terms(&mut self)
        requires
            old(self).wf(),
            !old(self).finalized(),
            old(self).spec_terms().len() > 0,
        ensures
            final(self).wf(),
            final(self).finalized(),
            final(self).symbols() == old(self).symbols(),
            final(self).spec_terms() == old(self).spec_terms(),
            final(self).spec_nonterms() == old(self).spec_nonterms(),
    {
        let mut min_code = Self::code_of(&self.symbs[self.terms[0]]);
        let mut max_code = min_code;
        let mut i: usize = 1;
        while i < self.terms.len()
            invariant
                self.wf(),
                self.spec_terms().len() > 0,
                1 <= i <= self.terms@.len(),
                min_code <= max_code,
                exists|j: int|
                    0 <= j < i && self.symbs@[#[trigger] self.terms@[j] as int].spec_code()
                        == min_code,
                forall|j: int|
                    0 <= j < i ==> min_code
                        <= self.symbs@[#[trigger] self.terms@[j] as int].spec_code() <= max_code,
            decreases self.terms@.len() - i,
        {
            let c = Self::code_of(&self.symbs[self.terms[i]]);
            if c < min_code {
                min_code = c;
            }
            if c > max_code {
                max_code = c;
            }
            i = i + 1;
        }
        if max_code - min_code < CODE_VECT_BOUND {
            let size = (max_code - min_code) as usize + 1;
            let mut vect: Vec<Option<usize>> = Vec::new();
            let mut k: usize = 0;
            while k < size
                invariant
                    k <= size,
                    vect@.len() == k,
                    forall|m: int| 0 <= m < k ==> vect@[m] is None,
                decreases size - k,
            {
                vect.push(None);
                k = k + 1;
            }
            let mut t: usize = 0;
            while t < self.terms.len()
                invariant
                    self.wf(),
                    t <= self.terms@.len(),
                    vect@.len() == size,
                    size == max_code - min_code + 1,
                    forall|j: int|
                        0 <= j < self.terms@.len() ==> min_code
                            <= self.symbs@[#[trigger] self.terms@[j] as int].spec_code()
                            <= max_code,
                    forall|m: int|
                        0 <= m < size ==> match #[trigger] vect@[m] {
                            Some(i) => i < self.symbs@.len() && self.symbs@[i as int].is_term()
                                && self.symbs@[i as int].spec_code() == min_code + m
                                && (exists|j: int| 0 <= j < t && #[trigger] self.terms@[j] == i),
                            None => forall|j: int|
                                0 <= j < t ==> self.symbs@[
                                    #[trigger] self.terms@[j] as int
                                ].spec_code() != min_code + m,
                        },
                decreases self.terms@.len() - t,
            {
                let idx = self.terms[t];
                let c = Self::code_of(&self.symbs[idx]);
                let slot = (c - min_code) as usize;
                vect[slot] = Some(idx);
                proof {
                    assert forall|m: int| 0 <= m < size implies match #[trigger] vect@[m] {
                        Some(i) => i < self.symbs@.len() && self.symbs@[i as int].is_term()
                            && self.symbs@[i as int].spec_code() == min_code + m
                            && (exists|j: int| 0 <= j < t + 1 && #[trigger] self.terms@[j] == i),
                        None => forall|j: int|
                            0 <= j < t + 1 ==> self.symbs@[
                                #[trigger] self.terms@[j] as int
                            ].spec_code() != min_code + m,
                    } by {
                        if m != slot {
                            match vect@[m] {
                                Some(_) => {},
                                None => {
                                    assert forall|j: int| 0 <= j < t + 1
                                        implies self.symbs@[
                                        #[trigger] self.terms@[j] as int
                                    ].spec_code() != min_code + m by {
                                        if j == t {
                                            assert(self.symbs@[
                                                self.terms@[j] as int
                                            ].spec_code() == min_code + slot);
                                        }
                                    }
                                },
                            }
                        }
                    }
                }
                t = t + 1;
            }
            proof {
                assert forall|m: int|
                    0 <= m < size && vect@[m] is None
                        implies !has_term_code(self.symbs@, (min_code + m) as u32) by {
                    assert forall|i: int|
                        0 <= i < self.symbs@.len() && (#[trigger] self.symbs@[i]).is_term()
                            implies self.symbs@[i].spec_code() != min_code + m by {
                        let j = self.symbs@[i].spec_term_num() as int;
                        assert(self.terms@[j] == i);
                        assert(self.symbs@[self.terms@[j] as int].spec_code() != min_code + m);
                    }
                }
            }
            self.code_vect = vect;
            self.code_vect_start = min_code;
            self.code_vect_built = true;
        }
        self.terms_finalized = true;
        proof {
            if self.code_vect_built {
                assert forall|i: int|
                    0 <= i < self.symbs@.len() && (#[trigger] self.symbs@[i]).is_term()
                        implies self.code_vect_start <= self.symbs@[i].spec_code()
                        < self.code_vect_start + self.code_vect@.len() by {
                    let j = self.symbs@[i].spec_term_num() as int;
                    assert(self.terms@[j] == i);
                }
            }
        }
    }

    /// Marks the symbol `id` as reachable, or not, from the axiom.
    pub fn set_access_p(&mut self, id: usize, v: bool)
        requires
            old(self).wf(),
            id < old(self).symbols().len(),
        ensures
            final(self).wf(),
            final(self).symbols() =~= old(self).symbols().update(
                id as int,
                Symb { access_p: v, ..old(self).symbols()[id as int] },
            ),
            final(self).spec_terms() == old(self).spec_terms(),
            final(self).spec_nonterms() == old(self).spec_nonterms(),
            final(self).finalized() == old(self).finalized(),
    {
        self.symbs[id].access_p = v;
    }

    /// Marks whether the symbol `id` derives some terminal string.
    pub fn set_derivation_p(&mut self, id: usize, v: bool)
        requires
            old(self).wf(),
            id < old(self).symbols().len(),
        ensures
            final(self).wf(),
            final(self).symbols() =~= old(self).symbols().update(
                id as int,
                Symb { derivation_p: v, ..old(self).symbols()[id as int] },
            ),
            final(self).spec_terms() == old(self).spec_terms(),
            final(self).spec_nonterms() == old(self).spec_nonterms(),
            final(self).finalized() == old(self).finalized(),
    {
        self.symbs[id].derivation_p = v;
    }

    /// Marks whether the symbol `id` may derive the empty string.
    pub fn set_empty_p(&mut self, id: usize, v: bool)
        requires
            old(self).wf(),
            id < old(self).symbols().len(),
        ensures
            final(self).wf(),
            final(self).symbols() =~= old(self).symbols().update(
                id as int,
                Symb { empty_p: v, ..old(self).symbols()[id as int] },
            ),
            final(self).spec_terms() == old(self).spec_terms(),
            final(self).spec_nonterms() == old(self).spec_nonterms(),
            final(self).finalized() == old(self).finalized(),
    {
        self.symbs[id].empty_p = v;
    }

    /// Marks whether the nonterminal `id` may derive itself.
    pub fn set_loop_p(&mut self, id: usize, v: bool)
        requires
            old(self).wf(),
            id < old(self).symbols().len(),
            !old(self).symbols()[id as int].is_term(),
        ensures
            final(self).wf(),
            final(self).symbols() =~= old(self).symbols().update(
                id as int,
                Symb {
                    kind: KindSymbInfo::Nonterminal(
                        NonterminalSymbInfo {
                            loop_p: v,
                            ..nonterm_info(old(self).symbols()[id as int])
                        },
                    ),
                    ..old(self).symbols()[id as int]
                },
            ),
            final(self).spec_terms() == old(self).spec_terms(),
            final(self).spec_nonterms() == old(self).spec_nonterms(),
            final(self).finalized() == old(self).finalized(),
    {
        match &mut self.symbs[id].kind {
            KindSymbInfo::Nonterminal(n) => {
                n.loop_p = v;
            },
            KindSymbInfo::Terminal(_) => {},
        }
    }

    /// Records the canonical id of the FIRST set of the nonterminal `id`.
    pub fn set_first(&mut self, id: usize, set_id: usize)
        requires
            old(self).wf(),
            id < old(self).symbols().len(),
            !old(self).symbols()[id as int].is_term(),
        ensures
            final(self).wf(),
            final(self).symbols() =~= old(self).symbols().update(
                id as int,
                Symb {
                    kind: KindSymbInfo::Nonterminal(
                        NonterminalSymbInfo {
                            first: Some(set_id),
                            ..nonterm_info(old(self).symbols()[id as int])
                        },
                    ),
                    ..old(self).symbols()[id as int]
                },
            ),
            final(self).spec_terms() == old(self).spec_terms(),
            final(self).spec_nonterms() == old(self).spec_nonterms(),
            final(self).finalized() == old(self).finalized(),
    {
        match &mut self.symbs[id].kind {
            KindSymbInfo::Nonterminal(n) => {
                n.first = Some(set_id);
            },
            KindSymbInfo::Terminal(_) => {},
        }
    }

    /// Records the canonical id of the FOLLOW set of the nonterminal `id`.
    pub fn set_follow(&mut self, id: usize, set_id: usize)
        requires
            old(self).wf(),
            id < old(self).symbols().len(),
            !old(self).symbols()[id as int].is_term(),
        ensures
            final(self).wf(),
            final(self).symbols() =~= old(self).symbols().update(
                id as int,
                Symb {
                    kind: KindSymbInfo::Nonterminal(
                        NonterminalSymbInfo {
                            follow: Some(set_id),
                            ..nonterm_info(old(self).symbols()[id as int])
                        },
                    ),
                    ..old(self).symbols()[id as int]
                },
            ),
            final(self).spec_terms() == old(self).spec_terms(),
            final(self).spec_nonterms() == old(self).spec_nonterms(),
            final(self).finalized() == old(self).finalized(),
    {
        match &mut self.symbs[id].kind {
            KindSymbInfo::Nonterminal(n) => {
                n.follow = Some(set_id);
            },
            KindSymbInfo::Terminal(_) => {},
        }
    }

    /// Appends a rule id to the ordered rule list of the nonterminal `id`.
    pub fn add_rule_to_nonterm(&mut self, id: usize, rule_id: usize)
        requires
            old(self).wf(),
            id < old(self).symbols().len(),
            !old(self).symbols()[id as int].is_term(),
        ensures
            final(self).wf(),
            final(self).symbols() =~= old(self).symbols().update(
                id as int,
                final(self).symbols()[id as int],
            ),
            final(self).symbols()[id as int] == (Symb {
                kind: KindSymbInfo::Nonterminal(
                    NonterminalSymbInfo {
                        rules: final(self).nonterm_rules_vec(id as int),
                        ..nonterm_info(old(self).symbols()[id as int])
                    },
                ),
                ..old(self).symbols()[id as int]
            }),
            final(self).symbols()[id as int].spec_rules() =~= (old(self).symbols()[
                id as int
            ].spec_rules().push(rule_id)),
            final(self).spec_terms() == old(self).spec_terms(),
            final(self).spec_nonterms() == old(self).spec_nonterms(),
            final(self).finalized() == old(self).finalized(),
    {
        match &mut self.symbs[id].kind {
            KindSymbInfo::Nonterminal(n) => {
                n.rules.push(rule_id);
            },
            KindSymbInfo::Terminal(_) => {},
        }
    }

    /// The rule-list vector stored on the nonterminal at position `id`.
    pub closed spec fn nonterm_rules_vec(self, id: int) -> Vec<usize> {
        nonterm_info(self.symbs@[id]).rules
    }

    /// The ordered rule ids owned by the nonterminal `id`, if `id` names a
    /// nonterminal.
    pub fn rules_for(&self, id: usize) -> (r: Option<&Vec<usize>>)
        requires
            self.wf(),
        ensures
            match r {
                Some(v) => id < self.symbols().len() && !self.symbols()[id as int].is_term()
                    && v@ == self.symbols()[id as int].spec_rules(),
                None => id >= self.symbols().len() || self.symbols()[id as int].is_term(),
            },
    {
        if id >= self.symbs.len() {
            return None;
        }
        match &self.symbs[id].kind {
            KindSymbInfo::Nonterminal(n) => Some(&n.rules),
            KindSymbInfo::Terminal(_) => None,
        }
    }
}

/// Law of dense numbering: in a consistent table the overall indices over all
/// symbols are exactly the positions 0 up to the symbol count, each taken once;
/// the terminal indices enumerate the terminals in terminal-creation order and
/// the nonterminal indices the nonterminals in nonterminal-creation order, each
/// a bijection with the positions 0 up to its count.
pub proof fn lemma_symbol_numbering(s: Symbs)
    requires
        s.wf(),
    ensures
        s.symbols().len() == s.spec_terms().len() + s.spec_nonterms().len(),
        forall|i: int| 0 <= i < s.symbols().len() ==> (#[trigger] s.symbols()[i]).num == i,
        forall|j: int|
            0 <= j < s.spec_terms().len() ==> #[trigger] s.spec_terms()[j] < s.symbols().len()
                && s.symbols()[s.spec_terms()[j] as int].is_term()
                && s.symbols()[s.spec_terms()[j] as int].spec_term_num() == j,
        forall|j: int|
            0 <= j < s.spec_nonterms().len() ==> #[trigger] s.spec_nonterms()[j]
                < s.symbols().len() && !s.symbols()[s.spec_nonterms()[j] as int].is_term()
                && s.symbols()[s.spec_nonterms()[j] as int].spec_nonterm_num() == j,
        forall|i: int|
            0 <= i < s.symbols().len() && (#[trigger] s.symbols()[i]).is_term()
                ==> s.symbols()[i].spec_term_num() < s.spec_terms().len()
                    && s.spec_terms()[s.symbols()[i].spec_term_num() as int] == i,
        forall|i: int|
            0 <= i < s.symbols().len() && !(#[trigger] s.symbols()[i]).is_term()
                ==> s.symbols()[i].spec_nonterm_num() < s.spec_nonterms().len()
                    && s.spec_nonterms()[s.symbols()[i].spec_nonterm_num() as int] == i,
        forall|j1: int, j2: int|
            0 <= j1 < j2 < s.spec_terms().len()
                ==> #[trigger] s.spec_terms()[j1] < #[trigger] s.spec_terms()[j2],
        forall|j1: int, j2: int|
            0 <= j1 < j2 < s.spec_nonterms().len()
                ==> #[trigger] s.spec_nonterms()[j1] < #[trigger] s.spec_nonterms()[j2],
{
}

/// Law of name uniqueness: in a consistent table at most one symbol carries
/// any given display name, so the id a name lookup returns is determined by
/// the symbol list alone.
pub proof fn lemma_name_unique(s: Symbs, i1: int, i2: int)
    requires
        s.wf(),
        0 <= i1 < s.symbols().len(),
        0 <= i2 < s.symbols().len(),
        s.symbols()[i1].repr@ == s.symbols()[i2].repr@,
    ensures
        i1 == i2,
{
}

/// Law of code uniqueness: in a consistent table at most one terminal carries
/// any given code, so the id a code lookup returns is determined by the
/// symbol list alone, whether or not the dense code array is built.
pub proof fn lemma_code_unique(s: Symbs, i1: int, i2: int)
    requires
        s.wf(),
        0 <= i1 < s.symbols().len(),
        0 <= i2 < s.symbols().len(),
        s.symbols()[i1].is_term(),
        s.symbols()[i2].is_term(),
        s.symbols()[i1].spec_code() == s.symbols()[i2].spec_code(),
    ensures
        i1 == i2,
{
}

} // verus!
