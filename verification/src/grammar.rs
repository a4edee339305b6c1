//! The frozen grammar object: the three stores bundled with the global
//! settings and handed, read-only, to an external recognizer.
use vstd::prelude::*;

use crate::rules::Rules;
use crate::symbols::Symbs;
use crate::term_sets::TermSets;

verus! {

/// How much lookahead the recognizer should use.
#[derive(Clone, Copy, Debug, PartialEq, Eq, Structural)]
pub enum LookaheadLevel {
    /// No lookahead.
    NoLookahead,
    /// Static (precomputed) one-token lookahead.
    Static,
    /// Dynamic lookahead with the given numeric bound.
    Dynamic(usize),
}

/// What diagnostic output the recognizer should produce.
#[derive(Clone, Copy, Debug, PartialEq, Eq, Structural)]
pub enum DebugLevel {
    /// Print the translation for graphviz, at the given detail.
    Graphviz(usize),
    /// Print nothing.
    Silent,
    /// Print statistics.
    Stats,
    /// Print the parse tree.
    ParseTree,
    /// Print rules and the parser list.
    Rules,
    /// Print sets.
    Sets,
    /// Print also nonstart situations.
    NonstartSituations,
    /// Print additionally lookaheads.
    Lookaheads,
}

/// The compiled grammar: the symbol table, the term-set store and the rule
/// store, bundled with the scalar settings. Construction runs on the stores
/// first — symbols, then rules, then interned sets — and the finished stores
/// are bundled here; `freeze` then ends mutation for good, and the object can
/// be shared read-only. Every mutating method demands an unfrozen grammar.
pub struct InternalGrammar {
    symbs: Symbs,
    term_sets: TermSets,
    rules: Rules,
    start_nonterm: Option<usize>,
    end_marker: Option<usize>,
    term_error: Option<usize>,
    lookahead_level: LookaheadLevel,
    recovery_token_matches: usize,
    debug_level: DebugLevel,
    one_parse_p: bool,
    cost_p: bool,
    error_recovery_p: bool,
    frozen: bool,
}

impl InternalGrammar {
    /// The symbol table.
    pub closed spec fn spec_symbs(self) -> Symbs {
        self.symbs
    }

    /// The term-set store.
    pub closed spec fn spec_term_sets(self) -> TermSets {
        self.term_sets
    }

    /// The rule store.
    pub closed spec fn spec_rules(self) -> Rules {
        self.rules
    }

    /// The designated start nonterminal, once set.
    pub closed spec fn spec_start_nonterm(self) -> Option<usize> {
        self.start_nonterm
    }

    /// The end-marker symbol, once set.
    pub closed spec fn spec_end_marker(self) -> Option<usize> {
        self.end_marker
    }

    /// The error-recovery token, once set.
    pub closed spec fn spec_term_error(self) -> Option<usize> {
        self.term_error
    }

    /// The lookahead strategy.
    pub closed spec fn spec_lookahead_level(self) -> LookaheadLevel {
        self.lookahead_level
    }

    /// Minimum token matches to accept a recovery point.
    pub closed spec fn spec_recovery_token_matches(self) -> usize {
        self.recovery_token_matches
    }

    /// The debug verbosity.
    pub closed spec fn spec_debug_level(self) -> DebugLevel {
        self.debug_level
    }

    /// Whether only one parse is wanted.
    pub closed spec fn spec_one_parse_p(self) -> bool {
        self.one_parse_p
    }

    /// Whether minimal-cost parses are wanted.
    pub closed spec fn spec_cost_p(self) -> bool {
        self.cost_p
    }

    /// Whether error recovery is wanted.
    pub closed spec fn spec_error_recovery_p(self) -> bool {
        self.error_recovery_p
    }

    /// Whether the grammar is frozen.
    pub closed spec fn spec_frozen(self) -> bool {
        self.frozen
    }

    /// The two grammars hold the same scalar settings and freeze state.
    pub open spec fn same_settings(a: InternalGrammar, b: InternalGrammar) -> bool {
        &&& a.spec_start_nonterm() == b.spec_start_nonterm()
        &&& a.spec_end_marker() == b.spec_end_marker()
        &&& a.spec_term_error() == b.spec_term_error()
        &&& a.spec_lookahead_level() == b.spec_lookahead_level()
        &&& a.spec_recovery_token_matches() == b.spec_recovery_token_matches()
        &&& a.spec_debug_level() == b.spec_debug_level()
        &&& a.spec_one_parse_p() == b.spec_one_parse_p()
        &&& a.spec_cost_p() == b.spec_cost_p()
        &&& a.spec_error_recovery_p() == b.spec_error_recovery_p()
        &&& a.spec_frozen() == b.spec_frozen()
    }

    /// Consistency of the three stores.
    pub open spec fn wf(self) -> bool {
        self.spec_symbs().wf() && self.spec_term_sets().wf() && self.spec_rules().wf()
    }

    /// Bundles the built stores with the scalar settings into an unfrozen
    /// grammar, with the start nonterminal, end marker and error token still unset.
    pub fn new(
        symbs: Symbs,
        term_sets: TermSets,
        rules: Rules,
        lookahead_level: LookaheadLevel,
        recovery_token_matches: usize,
        debug_level: DebugLevel,
        one_parse_p: bool,
        cost_p: bool,
        error_recovery_p: bool,
    ) -> (r: InternalGrammar)
        ensures
            r.spec_symbs() == symbs,
            r.spec_term_sets() == term_sets,
            r.spec_rules() == rules,
            r.spec_start_nonterm() is None,
            r.spec_end_marker() is None,
            r.spec_term_error() is None,
            r.spec_lookahead_level() == lookahead_level,
            r.spec_recovery_token_matches() == recovery_token_matches,
            r.spec_debug_level() == debug_level,
            r.spec_one_parse_p() == one_parse_p,
            r.spec_cost_p() == cost_p,
            r.spec_error_recovery_p() == error_recovery_p,
            !r.spec_frozen(),
    {
        InternalGrammar {
            symbs,
            term_sets,
            rules,
            start_nonterm: None,
            end_marker: None,
            term_error: None,
            lookahead_level,
            recovery_token_matches,
            debug_level,
            one_parse_p,
            cost_p,
            error_recovery_p,
            frozen: false,
        }
    }

    /// Read access to the symbol table.
    pub fn symbs(&self) -> (r: &Symbs)
        ensures
            *r == self.spec_symbs(),
    {
        &self.symbs
    }

    /// Read access to the term-set store.
    pub fn term_sets(&self) -> (r: &TermSets)
        ensures
            *r == self.spec_term_sets(),
    {
        &self.term_sets
    }

    /// Read access to the rule store.
    pub fn rules(&self) -> (r: &Rules)
        ensures
            *r == self.spec_rules(),
    {
        &self.rules
    }

    /// Write access to the symbol table of an unfrozen grammar.
    pub fn symbs_mut(&mut self) -> (r: &mut Symbs)
        requires
            !old(self).spec_frozen(),
        ensures
            *r == old(self).spec_symbs(),
            final(self).spec_symbs() == *final(r),
            final(self).spec_term_sets() == old(self).spec_term_sets(),
            final(self).spec_rules() == old(self).spec_rules(),
            Self::same_settings(*final(self), *old(self)),
    {
        &mut self.symbs
    }

    /// Write access to the term-set store of an unfrozen grammar.
    pub fn term_sets_mut(&mut self) -> (r: &mut TermSets)
        requires
            !old(self).spec_frozen(),
        ensures
            *r == old(self).spec_term_sets(),
            final(self).spec_term_sets() == *final(r),
            final(self).spec_symbs() == old(self).spec_symbs(),
            final(self).spec_rules() == old(self).spec_rules(),
            Self::same_settings(*final(self), *old(self)),
    {
        &mut self.term_sets
    }

    /// Write access to the rule store of an unfrozen grammar.
    pub fn rules_mut(&mut self) -> (r: &mut Rules)
        requires
            !old(self).spec_frozen(),
        ensures
            *r == old(self).spec_rules(),
            final(self).spec_rules() == *final(r),
            final(self).spec_symbs() == old(self).spec_symbs(),
            final(self).spec_term_sets() == old(self).spec_term_sets(),
            Self::same_settings(*final(self), *old(self)),
    {
        &mut self.rules
    }

    /// Sets the designated start nonterminal of an unfrozen grammar.
    pub fn set_start_nonterm(&mut self, id: usize)
        requires
            !old(self).spec_frozen(),
        ensures
            final(self).spec_symbs() == old(self).spec_symbs(),
            final(self).spec_term_sets() == old(self).spec_term_sets(),
            final(self).spec_rules() == old(self).spec_rules(),
            final(self).spec_start_nonterm() == Some(id),
            final(self).spec_end_marker() == old(self).spec_end_marker(),
            final(self).spec_term_error() == old(self).spec_term_error(),
            final(self).spec_lookahead_level() == old(self).spec_lookahead_level(),
            final(self).spec_recovery_token_matches() == old(self).spec_recovery_token_matches(),
            final(self).spec_debug_level() == old(self).spec_debug_level(),
            final(self).spec_one_parse_p() == old(self).spec_one_parse_p(),
            final(self).spec_cost_p() == old(self).spec_cost_p(),
            final(self).spec_error_recovery_p() == old(self).spec_error_recovery_p(),
            final(self).spec_frozen() == old(self).spec_frozen(),
    {
        self.start_nonterm = Some(id);
    }

    /// Sets the end-marker symbol of an unfrozen grammar.
    pub fn set_end_marker(&mut self, id: usize)
        requires
            !old(self).spec_frozen(),
        ensures
            final(self).spec_symbs() == old(self).spec_symbs(),
            final(self).spec_term_sets() == old(self).spec_term_sets(),
            final(self).spec_rules() == old(self).spec_rules(),
            final(self).spec_end_marker() == Some(id),
            final(self).spec_start_nonterm() == old(self).spec_start_nonterm(),
            final(self).spec_term_error() == old(self).spec_term_error(),
            final(self).spec_lookahead_level() == old(self).spec_lookahead_level(),
            final(self).spec_recovery_token_matches() == old(self).spec_recovery_token_matches(),
            final(self).spec_debug_level() == old(self).spec_debug_level(),
            final(self).spec_one_parse_p() == old(self).spec_one_parse_p(),
            final(self).spec_cost_p() == old(self).spec_cost_p(),
            final(self).spec_error_recovery_p() == old(self).spec_error_recovery_p(),
            final(self).spec_frozen() == old(self).spec_frozen(),
    {
        self.end_marker = Some(id);
    }

    /// Sets the error-recovery token of an unfrozen grammar.
    pub fn set_term_error(&mut self, id: usize)
        requires
            !old(self).spec_frozen(),
        ensures
            final(self).spec_symbs() == old(self).spec_symbs(),
            final(self).spec_term_sets() == old(self).spec_term_sets(),
            final(self).spec_rules() == old(self).spec_rules(),
            final(self).spec_term_error() == Some(id),
            final(self).spec_start_nonterm() == old(self).spec_start_nonterm(),
            final(self).spec_end_marker() == old(self).spec_end_marker(),
            final(self).spec_lookahead_level() == old(self).spec_lookahead_level(),
            final(self).spec_recovery_token_matches() == old(self).spec_recovery_token_matches(),
            final(self).spec_debug_level() == old(self).spec_debug_level(),
            final(self).spec_one_parse_p() == old(self).spec_one_parse_p(),
            final(self).spec_cost_p() == old(self).spec_cost_p(),
            final(self).spec_error_recovery_p() == old(self).spec_error_recovery_p(),
            final(self).spec_frozen() == old(self).spec_frozen(),
    {
        self.term_error = Some(id);
    }

    /// Freezes the grammar: no mutating method accepts it from here on.
    pub fn freeze(&mut self)
        requires
            !old(self).spec_frozen(),
        ensures
            final(self).spec_symbs() == old(self).spec_symbs(),
            final(self).spec_term_sets() == old(self).spec_term_sets(),
            final(self).spec_rules() == old(self).spec_rules(),
            final(self).spec_frozen(),
            final(self).spec_start_nonterm() == old(self).spec_start_nonterm(),
            final(self).spec_end_marker() == old(self).spec_end_marker(),
            final(self).spec_term_error() == old(self).spec_term_error(),
            final(self).spec_lookahead_level() == old(self).spec_lookahead_level(),
            final(self).spec_recovery_token_matches() == old(self).spec_recovery_token_matches(),
            final(self).spec_debug_level() == old(self).spec_debug_level(),
            final(self).spec_one_parse_p() == old(self).spec_one_parse_p(),
            final(self).spec_cost_p() == old(self).spec_cost_p(),
            final(self).spec_error_recovery_p() == old(self).spec_error_recovery_p(),
    {
        self.frozen = true;
    }

    /// Whether the grammar is frozen.
    pub fn is_frozen(&self) -> (r: bool)
        ensures
            r == self.spec_frozen(),
    {
        self.frozen
    }

    /// The designated start nonterminal, once set.
    pub fn start_nonterm(&self) -> (r: Option<usize>)
        ensures
            r == self.spec_start_nonterm(),
    {
        self.start_nonterm
    }

    /// The end-marker symbol, once set.
    pub fn end_marker(&self) -> (r: Option<usize>)
        ensures
            r == self.spec_end_marker(),
    {
        self.end_marker
    }

    /// The error-recovery token, once set.
    pub fn term_error(&self) -> (r: Option<usize>)
        ensures
            r == self.spec_term_error(),
    {
        self.term_error
    }

    /// The lookahead strategy.
    pub fn lookahead_level(&self) -> (r: LookaheadLevel)
        ensures
            r == self.spec_lookahead_level(),
    {
        self.lookahead_level
    }

    /// Minimum token matches to accept a recovery point.
    pub fn recovery_token_matches(&self) -> (r: usize)
        ensures
            r == self.spec_recovery_token_matches(),
    {
        self.recovery_token_matches
    }

    /// The debug verbosity.
    pub fn debug_level(&self) -> (r: DebugLevel)
        ensures
            r == self.spec_debug_level(),
    {
        self.debug_level
    }

    /// Whether only one parse is wanted.
    pub fn one_parse_p(&self) -> (r: bool)
        ensures
            r == self.spec_one_parse_p(),
    {
        self.one_parse_p
    }

    /// Whether minimal-cost parses are wanted.
    pub fn cost_p(&self) -> (r: bool)
        ensures
            r == self.spec_cost_p(),
    {
        self.cost_p
    }

    /// Whether error recovery is wanted.
    pub fn error_recovery_p(&self) -> (r: bool)
        ensures
            r == self.spec_error_recovery_p(),
    {
        self.error_recovery_p
    }
}

} // verus!
