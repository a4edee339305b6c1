//! The rule store: append-only grammar productions with an optional
//! translation template, assembled one rule at a time and addressed by a
//! dense start offset over a hypothetical flattened (lhs, rhs...) stream.
use vstd::prelude::*;

use crate::symbols::Symbs;

verus! {

/// In a translation template, a per-symbol order below zero rejects the
/// symbol: it contributes nothing to the built translation.
pub const ORDER_REJECTED: i32 = -1;

/// One finished grammar production.
#[derive(Debug)]
pub struct Rule {
    /// Creation-order number; equals the rule's id.
    pub num: usize,
    /// The nonterminal on the left-hand side.
    pub lhs: usize,
    /// The symbols on the right-hand side, in order.
    pub rhs: Vec<usize>,
    /// Abstract-node tag of the translation template, if any.
    pub anode: Option<String>,
    /// Cost of the abstract node; 0 when absent.
    pub anode_cost: i32,
    /// Per-rhs-symbol translation order; a negative entry rejects the symbol.
    pub order: Vec<i32>,
    /// Sum of (rhs length + 1) over all earlier rules: the position of this
    /// rule's lhs in a flattened stream of all (lhs, rhs...) groups.
    pub rule_start_offset: usize,
}

/// A rule being assembled.
struct CurRule {
    lhs: usize,
    rhs: Vec<usize>,
    anode: Option<String>,
    anode_cost: i32,
    order: Vec<i32>,
}

/// The start offset of the `i`-th rule: the sum of (rhs length + 1) over all
/// earlier rules in creation order.
pub open spec fn spec_offset(rules: Seq<Rule>, i: int) -> int
    decreases i,
{
    if i <= 0 {
        0
    } else {
        spec_offset(rules, i - 1) + rules[i - 1].rhs@.len() + 1
    }
}

/// The rule store. Rules are append-only; at most one rule is under
/// construction at a time.
pub struct Rules {
    /// The finished rules; the position of a rule equals its `num`.
    rules: Vec<Rule>,
    /// Sum of the rhs lengths of all finished rules.
    n_rhs_lens: usize,
    /// The start offset the next finished rule will take.
    next_offset: usize,
    /// The rule under construction, if any.
    cur: Option<CurRule>,
}

impl Rules {
    /// The finished rules in creation order.
    pub closed spec fn spec_rules(self) -> Seq<Rule> {
        self.rules@
    }

    /// Whether a rule is under construction.
    pub closed spec fn is_building(self) -> bool {
        self.cur is Some
    }

    /// The left-hand side of the rule under construction.
    pub closed spec fn cur_lhs(self) -> usize {
        self.cur->Some_0.lhs
    }

    /// The right-hand side, so far, of the rule under construction.
    pub closed spec fn cur_rhs(self) -> Seq<usize> {
        self.cur->Some_0.rhs@
    }

    /// The abstract-node tag, so far, of the rule under construction.
    pub closed spec fn cur_anode(self) -> Option<String> {
        self.cur->Some_0.anode
    }

    /// The abstract-node cost, so far, of the rule under construction.
    pub closed spec fn cur_cost(self) -> i32 {
        self.cur->Some_0.anode_cost
    }

    /// The per-symbol translation orders, so far, of the rule under
    /// construction.
    pub closed spec fn cur_order(self) -> Seq<i32> {
        self.cur->Some_0.order@
    }

    /// Sum of the rhs lengths of all finished rules.
    pub closed spec fn spec_n_rhs_lens(self) -> usize {
        self.n_rhs_lens
    }

    /// The start offset the next finished rule will take.
    pub closed spec fn spec_next_offset(self) -> usize {
        self.next_offset
    }

    /// Internal consistency of the store.
    pub closed spec fn wf(self) -> bool {
        &&& forall|i: int| 0 <= i < self.rules@.len() ==> (#[trigger] self.rules@[i]).num == i
        &&& forall|i: int|
            0 <= i < self.rules@.len() ==> (#[trigger] self.rules@[i]).rule_start_offset
                == spec_offset(self.rules@, i)
        &&& forall|i: int|
            0 <= i < self.rules@.len() ==> (#[trigger] self.rules@[i]).order@.len()
                == self.rules@[i].rhs@.len()
        &&& self.next_offset == spec_offset(self.rules@, self.rules@.len() as int)
        &&& self.n_rhs_lens + self.rules@.len() == self.next_offset
        &&& match self.cur {
            Some(c) => c.order@.len() == c.rhs@.len(),
            None => true,
        }
    }

    /// Creates an empty rule store.
    pub fn new() -> (r: Rules)
        ensures
            r.wf(),
            r.spec_rules() =~= Seq::<Rule>::empty(),
            !r.is_building(),
            r.spec_n_rhs_lens() == 0,
            r.spec_next_offset() == 0,
    {
        Rules { rules: Vec::new(), n_rhs_lens: 0, next_offset: 0, cur: None }
    }

    /// The number of finished rules.
    pub fn n_rules(&self) -> (r: usize)
        ensures
            r == self.spec_rules().len(),
    {
        self.rules.len()
    }

    /// Sum of the rhs lengths of all finished rules.
    pub fn n_rhs_lens(&self) -> (r: usize)
        ensures
            r == self.spec_n_rhs_lens(),
    {
        self.n_rhs_lens
    }

    /// The start offset the next finished rule will take.
    pub fn next_offset(&self) -> (r: usize)
        ensures
            r == self.spec_next_offset(),
    {
        self.next_offset
    }

    /// Starts assembling a rule whose left-hand side is `lhs`, with an empty
    /// right-hand side and no translation template.
    pub fn begin_rule(&mut self, lhs: usize)
        requires
            old(self).wf(),
            !old(self).is_building(),
        ensures
            final(self).wf(),
            final(self).is_building(),
            final(self).cur_lhs() == lhs,
            final(self).cur_rhs() =~= Seq::<usize>::empty(),
            final(self).cur_anode() is None,
            final(self).cur_cost() == 0,
            final(self).cur_order() =~= Seq::<i32>::empty(),
            final(self).spec_rules() == old(self).spec_rules(),
            final(self).spec_n_rhs_lens() == old(self).spec_n_rhs_lens(),
            final(self).spec_next_offset() == old(self).spec_next_offset(),
    {
        self.cur = Some(
            CurRule { lhs, rhs: Vec::new(), anode: None, anode_cost: 0, order: Vec::new() },
        );
    }

    /// Appends `sym` to the right-hand side of the rule under construction;
    /// its translation order starts out as the rejection sentinel.
    pub fn add_rhs_symbol(&mut self, sym: usize)
        requires
            old(self).wf(),
            old(self).is_building(),
        ensures
            final(self).wf(),
            final(self).is_building(),
            final(self).cur_lhs() == old(self).cur_lhs(),
            final(self).cur_rhs() =~= old(self).cur_rhs().push(sym),
            final(self).cur_anode() == old(self).cur_anode(),
            final(self).cur_cost() == old(self).cur_cost(),
            final(self).cur_order() =~= old(self).cur_order().push(ORDER_REJECTED),
            final(self).spec_rules() == old(self).spec_rules(),
            final(self).spec_n_rhs_lens() == old(self).spec_n_rhs_lens(),
            final(self).spec_next_offset() == old(self).spec_next_offset(),
    {
        match &mut self.cur {
            Some(c) => {
                c.rhs.push(sym);
                c.order.push(ORDER_REJECTED);
            },
            None => {},
        }
    }

    /// Sets the translation template of the rule under construction: its
    /// abstract-node tag, if any, and the node cost.
    pub fn set_translation(&mut self, anode: Option<String>, anode_cost: i32)
        requires
            old(self).wf(),
            old(self).is_building(),
        ensures
            final(self).wf(),
            final(self).is_building(),
            final(self).cur_lhs() == old(self).cur_lhs(),
            final(self).cur_rhs() == old(self).cur_rhs(),
            final(self).cur_anode() == anode,
            final(self).cur_cost() == anode_cost,
            final(self).cur_order() == old(self).cur_order(),
            final(self).spec_rules() == old(self).spec_rules(),
            final(self).spec_n_rhs_lens() == old(self).spec_n_rhs_lens(),
            final(self).spec_next_offset() == old(self).spec_next_offset(),
    {
        match &mut self.cur {
            Some(c) => {
                c.anode = anode;
                c.anode_cost = anode_cost;
            },
            None => {},
        }
    }

    /// Sets the translation order of the `idx`-th rhs symbol of the rule
    /// under construction; a negative `ord` rejects the symbol.
    pub fn set_symbol_translation_order(&mut self, idx: usize, ord: i32)
        requires
            old(self).wf(),
            old(self).is_building(),
            idx < old(self).cur_rhs().len(),
        ensures
            final(self).wf(),
            final(self).is_building(),
            final(self).cur_lhs() == old(self).cur_lhs(),
            final(self).cur_rhs() == old(self).cur_rhs(),
            final(self).cur_anode() == old(self).cur_anode(),
            final(self).cur_cost() == old(self).cur_cost(),
            final(self).cur_order() =~= old(self).cur_order().update(idx as int, ord),
            final(self).spec_rules() == old(self).spec_rules(),
            final(self).spec_n_rhs_lens() == old(self).spec_n_rhs_lens(),
            final(self).spec_next_offset() == old(self).spec_next_offset(),
    {
        match &mut self.cur {
            Some(c) => {
                c.order[idx] = ord;
            },
            None => {},
        }
    }

    /// Finishes the rule under construction: appends it with the next number
    /// and the next start offset, adds its rhs length to the running total,
    /// and appends its id to the rule list of its lhs nonterminal in `symbs`.
    pub fn finish_rule(&mut self, symbs: &mut Symbs) -> (r: usize)
        requires
            old(self).wf(),
            old(self).is_building(),
            old(symbs).wf(),
            old(self).cur_lhs() < old(symbs).symbols().len(),
            !old(symbs).symbols()[old(self).cur_lhs() as int].is_term(),
            old(self).spec_next_offset() + old(self).cur_rhs().len() + 1 <= usize::MAX,
            old(self).spec_rules().len() < usize::MAX,
        ensures
            final(self).wf(),
            final(symbs).wf(),
            !final(self).is_building(),
            r == old(self).spec_rules().len(),
            final(self).spec_rules().len() == old(self).spec_rules().len() + 1,
            final(self).spec_rules().drop_last() =~= old(self).spec_rules(),
            final(self).spec_rules().last().num == r,
            final(self).spec_rules().last().lhs == old(self).cur_lhs(),
            final(self).spec_rules().last().rhs@ == old(self).cur_rhs(),
            final(self).spec_rules().last().anode == old(self).cur_anode(),
            final(self).spec_rules().last().anode_cost == old(self).cur_cost(),
            final(self).spec_rules().last().order@ == old(self).cur_order(),
            final(self).spec_rules().last().rule_start_offset == old(self).spec_next_offset(),
            final(self).spec_next_offset() == old(self).spec_next_offset()
                + old(self).cur_rhs().len() + 1,
            final(self).spec_n_rhs_lens() == old(self).spec_n_rhs_lens()
                + old(self).cur_rhs().len(),
            final(symbs).symbols() =~= old(symbs).symbols().update(
                old(self).cur_lhs() as int,
                final(symbs).symbols()[old(self).cur_lhs() as int],
            ),
            final(symbs).symbols()[old(self).cur_lhs() as int].spec_rules() =~= (old(
                symbs,
            ).symbols()[old(self).cur_lhs() as int].spec_rules().push(r)),
            final(symbs).symbols()[old(self).cur_lhs() as int].repr == old(symbs).symbols()[old(
                self,
            ).cur_lhs() as int].repr,
            !final(symbs).symbols()[old(self).cur_lhs() as int].is_term(),
            final(symbs).symbols()[old(self).cur_lhs() as int].spec_nonterm_num() == old(
                symbs,
            ).symbols()[old(self).cur_lhs() as int].spec_nonterm_num(),
            final(symbs).spec_terms() == old(symbs).spec_terms(),
            final(symbs).spec_nonterms() == old(symbs).spec_nonterms(),
            final(symbs).finalized() == old(symbs).finalized(),
    {
        let c_opt = self.cur.take();
        let ghost rules_before = self.rules@;
        let id = self.rules.len();
        match c_opt {
            Some(c) => {
                let rhs_len = c.rhs.len();
                let rule = Rule {
                    num: id,
                    lhs: c.lhs,
                    rhs: c.rhs,
                    anode: c.anode,
                    anode_cost: c.anode_cost,
                    order: c.order,
                    rule_start_offset: self.next_offset,
                };
                symbs.add_rule_to_nonterm(c.lhs, id);
                self.rules.push(rule);
                self.next_offset = self.next_offset + rhs_len + 1;
                self.n_rhs_lens = self.n_rhs_lens + rhs_len;
                proof {
                    assert forall|i: int|
                        0 <= i < self.rules@.len() implies (#[trigger] self.rules@[
                        i
                    ]).rule_start_offset == spec_offset(self.rules@, i) by {
                        lemma_offset_push(rules_before, self.rules@.last(), i);
                    }
                    lemma_offset_push(rules_before, self.rules@.last(), rules_before.len() as int);
                    lemma_offset_push(
                        rules_before,
                        self.rules@.last(),
                        rules_before.len() as int + 1,
                    );
                }
                id
            },
            None => id,
        }
    }

    /// Returns the finished rule numbered `id`, if any; the stored rule's own
    /// number always matches `id`.
    pub fn rule(&self, id: usize) -> (r: Option<&Rule>)
        requires
            self.wf(),
        ensures
            match r {
                Some(rule) => id < self.spec_rules().len() && *rule == self.spec_rules()[id as int]
                    && rule.num == id,
                None => id >= self.spec_rules().len(),
            },
    {
        if id < self.rules.len() {
            Some(&self.rules[id])
        } else {
            None
        }
    }
}

/// Appending a rule leaves the start offset of every position up to and
/// including the old length unchanged.
proof fn lemma_offset_push(rules: Seq<Rule>, r: Rule, i: int)
    requires
        0 <= i <= rules.len() + 1,
    ensures
        i <= rules.len() ==> spec_offset(rules.push(r), i) == spec_offset(rules, i),
        i == rules.len() + 1 ==> spec_offset(rules.push(r), i) == spec_offset(rules, i - 1)
            + r.rhs@.len() + 1,
    decreases i,
{
    if i > 0 {
        lemma_offset_push(rules, r, i - 1);
    }
}

/// Law of dense rule addressing: in a consistent store the start offset of
/// every rule equals the sum of (rhs length + 1) over all earlier rules, and
/// the next offset extends the same sum over the whole store.
pub proof fn lemma_rule_offsets(rs: Rules)
    requires
        rs.wf(),
    ensures
        forall|i: int|
            0 <= i < rs.spec_rules().len() ==> (#[trigger] rs.spec_rules()[i]).rule_start_offset
                == spec_offset(rs.spec_rules(), i),
        forall|i: int| 0 <= i < rs.spec_rules().len() ==> (#[trigger] rs.spec_rules()[i]).num == i,
        rs.spec_next_offset() == spec_offset(rs.spec_rules(), rs.spec_rules().len() as int),
        rs.spec_n_rhs_lens() + rs.spec_rules().len() == rs.spec_next_offset(),
{
}

} // verus!
