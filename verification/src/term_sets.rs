//! Terminal sets as fixed-width bit vectors, and the canonicalizing store
//! that assigns each distinct bit pattern a stable sequential id.
use vstd::prelude::*;

use crate::GrammarError;

verus! {

/// Whether bit `sh` of the word `w` is set.
pub open spec fn word_bit(w: u64, sh: u64) -> bool {
    (w >> sh) & 1 == 1
}

/// Whether terminal index `i` is in the set whose words are `words`.
pub open spec fn ts_has(words: Seq<u64>, i: int) -> bool {
    0 <= i < words.len() * 64 && word_bit(words[i / 64], (i % 64) as u64)
}

proof fn lemma_zero_word_clear()
    by (bit_vector)
    ensures
        forall|sh: u64| sh < 64 ==> !(#[trigger] ((0u64 >> sh) & 1) == 1),
{
}

proof fn lemma_or_bit_same(w: u64, sh: u64)
    by (bit_vector)
    requires
        sh < 64,
    ensures
        ((w | (1u64 << sh)) >> sh) & 1 == 1,
{
}

proof fn lemma_or_bit_other(w: u64, sh: u64, sh2: u64)
    by (bit_vector)
    requires
        sh < 64,
        sh2 < 64,
        sh != sh2,
    ensures
        ((w | (1u64 << sh)) >> sh2) & 1 == (w >> sh2) & 1,
{
}

proof fn lemma_test_bit(w: u64, sh: u64)
    by (bit_vector)
    requires
        sh < 64,
    ensures
        (w & (1u64 << sh) != 0) <==> ((w >> sh) & 1 == 1),
{
}

proof fn lemma_or_word_bits(a: u64, b: u64, sh: u64)
    by (bit_vector)
    requires
        sh < 64,
    ensures
        (((a | b) >> sh) & 1 == 1) <==> (((a >> sh) & 1 == 1) || ((b >> sh) & 1 == 1)),
{
}

/// Some bit of a nonzero word is set.
proof fn lemma_find_set_bit(d: u64)
    requires
        d != 0,
    ensures
        exists|sh: u64| sh < 64 && #[trigger] ((d >> sh) & 1) == 1,
    decreases d,
{
    if d & 1 == 1 {
        assert((d >> 0) & 1 == 1) by (bit_vector)
            requires
                d & 1 == 1,
        ;
    } else {
        assert(d >> 1 != 0 && d >> 1 < d) by (bit_vector)
            requires
                d != 0 && d & 1 != 1,
        ;
        lemma_find_set_bit(d >> 1);
        let sh1 = choose|sh: u64| sh < 64 && #[trigger] (((d >> 1) >> sh) & 1) == 1;
        assert(((d >> 1) >> 63) & 1 == 0) by (bit_vector);
        assert((d >> (sh1 + 1)) & 1 == 1) by (bit_vector)
            requires
                sh1 < 63 && ((d >> 1) >> sh1) & 1 == 1,
        ;
    }
}

/// The position of index `i` inside its word, and the word that holds it.
proof fn lemma_index_split(words: Seq<u64>, i: int)
    requires
        0 <= i < words.len() * 64,
    ensures
        0 <= i / 64 < words.len(),
        0 <= i % 64 < 64,
        i == 64 * (i / 64) + (i % 64),
        ts_has(words, i) == word_bit(words[i / 64], (i % 64) as u64),
{
    assert(0 <= i / 64 < words.len()) by (nonlinear_arith)
        requires
            0 <= i < words.len() * 64,
    ;
    assert(i == 64 * (i / 64) + (i % 64)) by (nonlinear_arith);
}

/// A terminal set: a bit vector whose width the owning store fixes at the
/// frozen terminal count, rounded up to whole 64-bit words.
pub struct TermSet {
    elems: Vec<u64>,
}

impl View for TermSet {
    type V = Seq<u64>;

    closed spec fn view(&self) -> Seq<u64> {
        self.elems@
    }
}

impl TermSet {
    /// Clears every bit of the set.
    pub fn clear(&mut self)
        ensures
            final(self)@.len() == old(self)@.len(),
            forall|k: int| 0 <= k < final(self)@.len() ==> final(self)@[k] == 0,
            forall|i: int| !ts_has(final(self)@, i),
    {
        let n = self.elems.len();
        let mut k: usize = 0;
        while k < n
            invariant
                n == self.elems@.len(),
                k <= n,
                forall|m: int| 0 <= m < k ==> self.elems@[m] == 0,
            decreases n - k,
        {
            self.elems[k] = 0;
            k = k + 1;
        }
        proof {
            lemma_zero_word_clear();
            assert forall|i: int| !ts_has(self.elems@, i) by {
                if 0 <= i < self.elems@.len() * 64 {
                    lemma_index_split(self.elems@, i);
                }
            }
        }
    }

    /// Copies `src` into this set, bit for bit.
    pub fn copy(&mut self, src: &TermSet)
        requires
            old(self)@.len() == src@.len(),
        ensures
            final(self)@ =~= src@,
    {
        let n = self.elems.len();
        let mut k: usize = 0;
        while k < n
            invariant
                n == self.elems@.len(),
                self.elems@.len() == src@.len(),
                k <= n,
                forall|m: int| 0 <= m < k ==> self.elems@[m] == src@[m],
            decreases n - k,
        {
            self.elems[k] = src.elems[k];
            k = k + 1;
        }
    }

    /// Bitwise-or of `other` into this set. Returns whether any bit changed,
    /// that is, whether `other` held a bit not already present.
    pub fn union_in_place(&mut self, other: &TermSet) -> (r: bool)
        requires
            old(self)@.len() == other@.len(),
        ensures
            final(self)@.len() == old(self)@.len(),
            forall|k: int|
                0 <= k < final(self)@.len() ==> final(self)@[k] == (old(self)@[k] | other@[k]),
            forall|i: int|
                ts_has(final(self)@, i) == (ts_has(old(self)@, i) || ts_has(other@, i)),
            r == !(forall|i: int|
                0 <= i < old(self)@.len() * 64 ==> (ts_has(other@, i) ==> ts_has(old(self)@, i))),
    {
        let ghost a = self.elems@;
        let n = self.elems.len();
        let mut changed = false;
        let mut k: usize = 0;
        while k < n
            invariant
                n == self.elems@.len(),
                self.elems@.len() == a.len(),
                a.len() == other@.len(),
                k <= n,
                forall|m: int| 0 <= m < k ==> self.elems@[m] == (a[m] | other@[m]),
                forall|m: int| k <= m < n ==> self.elems@[m] == a[m],
                changed == !(forall|m: int| 0 <= m < k ==> (a[m] | other@[m]) == a[m]),
            decreases n - k,
        {
            let w = self.elems[k];
            let o = other.elems[k];
            let ghost changed_before = changed;
            if (w | o) != w {
                changed = true;
            }
            self.elems[k] = w | o;
            proof {
                assert(a[k as int] == w && other@[k as int] == o);
                if !changed {
                    assert forall|m: int| 0 <= m < k + 1 implies (a[m] | other@[m]) == a[m] by {
                        if m == k {
                            assert((w | o) == w);
                        }
                    }
                }
            }
            k = k + 1;
        }
        proof {
            assert forall|i: int|
                ts_has(self.elems@, i) == (ts_has(a, i) || ts_has(other@, i)) by {
                if 0 <= i < a.len() * 64 {
                    lemma_index_split(a, i);
                    lemma_or_word_bits(a[i / 64], other@[i / 64], (i % 64) as u64);
                }
            }
            let changed_spec = !(forall|i: int|
                0 <= i < a.len() * 64 ==> (ts_has(other@, i) ==> ts_has(a, i)));
            if changed {
                let m = choose|m: int| 0 <= m < a.len() && (a[m] | other@[m]) != a[m];
                assert(exists|sh: u64|
                    sh < 64 && #[trigger] ((other@[m] >> sh) & 1) == 1 && ((a[m] >> sh) & 1)
                        != 1) by {
                    lemma_changed_word_has_witness(a[m], other@[m]);
                }
                let sh = choose|sh: u64|
                    sh < 64 && #[trigger] ((other@[m] >> sh) & 1) == 1 && ((a[m] >> sh) & 1) != 1;
                let i = 64 * m + sh;
                assert(0 <= i < a.len() * 64) by (nonlinear_arith)
                    requires
                        0 <= m < a.len(),
                        0 <= sh < 64,
                        i == 64 * m + sh,
                ;
                lemma_index_split(a, i);
                assert(i / 64 == m && i % 64 == sh);
                assert(ts_has(other@, i) && !ts_has(a, i));
            } else {
                assert forall|i: int|
                    0 <= i < a.len() * 64 && ts_has(other@, i) implies ts_has(a, i) by {
                    lemma_index_split(a, i);
                    lemma_or_word_bits(a[i / 64], other@[i / 64], (i % 64) as u64);
                    assert((a[i / 64] | other@[i / 64]) == a[i / 64]);
                }
            }
        }
        changed
    }
}

/// A word that an or changes holds some bit of `b` that `a` lacks.
proof fn lemma_changed_word_has_witness(a: u64, b: u64)
    requires
        (a | b) != a,
    ensures
        exists|sh: u64| sh < 64 && #[trigger] ((b >> sh) & 1) == 1 && ((a >> sh) & 1) != 1,
{
    let d = b & !a;
    assert(d != 0) by (bit_vector)
        requires
            (a | b) != a && d == b & !a,
    ;
    lemma_find_set_bit(d);
    let sh = choose|sh: u64| sh < 64 && #[trigger] ((d >> sh) & 1) == 1;
    assert((b >> sh) & 1 == 1 && (a >> sh) & 1 != 1) by (bit_vector)
        requires
            sh < 64 && d == b & !a && (d >> sh) & 1 == 1,
    ;
}

/// Result of interning a bit pattern: `New` carries a freshly assigned id for
/// a pattern never seen before, `Existing` the id the same pattern got first.
#[derive(Clone, Copy, Debug, PartialEq, Eq, Structural)]
pub enum InternResult {
    New(usize),
    Existing(usize),
}

/// The canonicalizing store of terminal sets. Its width is fixed at creation
/// from the frozen terminal count; each distinct bit pattern ever interned
/// gets a stable, sequential, never reused id.
pub struct TermSets {
    /// The frozen terminal count: the number of meaningful bits per set.
    n_terms: usize,
    /// Words per set: the terminal count rounded up to whole 64-bit words.
    words: usize,
    /// The canonical sets, by id.
    sets: Vec<TermSet>,
}

impl TermSets {
    /// The frozen terminal count.
    pub closed spec fn spec_n_terms(self) -> usize {
        self.n_terms
    }

    /// Words per set.
    pub closed spec fn spec_words(self) -> usize {
        self.words
    }

    /// The canonical bit patterns, by id.
    pub closed spec fn canon(self) -> Seq<Seq<u64>> {
        self.sets@.map(|i: int, s: TermSet| s@)
    }

    /// Internal consistency: every canonical set has the frozen width and no
    /// two canonical sets hold the same bit pattern.
    pub closed spec fn wf(self) -> bool {
        &&& self.words == (self.n_terms + 63) / 64
        &&& forall|i: int| 0 <= i < self.sets@.len() ==> (#[trigger] self.sets@[i]@).len() == self.words
        &&& forall|i: int, j: int| 0 <= i < j < self.sets@.len() ==> self.sets@[i]@ != self.sets@[j]@
    }

    /// Creates a store for sets over `n_terms` terminals.
    pub fn new(n_terms: usize) -> (r: TermSets)
        requires
            n_terms <= usize::MAX - 63,
        ensures
            r.wf(),
            r.spec_n_terms() == n_terms,
            r.spec_words() == (n_terms + 63) / 64,
            r.canon() =~= Seq::<Seq<u64>>::empty(),
    {
        TermSets { n_terms, words: (n_terms + 63) / 64, sets: Vec::new() }
    }

    /// The frozen terminal count.
    pub fn n_terms(&self) -> (r: usize)
        ensures
            r == self.spec_n_terms(),
    {
        self.n_terms
    }

    /// The number of canonical sets interned so far.
    pub fn n_sets(&self) -> (r: usize)
        ensures
            r == self.canon().len(),
    {
        self.sets.len()
    }

    /// Allocates a fresh set of the frozen width with every bit clear.
    pub fn create(&self) -> (r: TermSet)
        ensures
            r@.len() == self.spec_words(),
            forall|k: int| 0 <= k < r@.len() ==> r@[k] == 0,
            forall|i: int| !ts_has(r@, i),
    {
        let mut elems: Vec<u64> = Vec::new();
        let mut k: usize = 0;
        while k < self.words
            invariant
                k <= self.words,
                elems@.len() == k,
                forall|m: int| 0 <= m < k ==> elems@[m] == 0,
            decreases self.words - k,
        {
            elems.push(0);
            k = k + 1;
        }
        let r = TermSet { elems };
        proof {
            lemma_zero_word_clear();
            assert forall|i: int| !ts_has(r@, i) by {
                if 0 <= i < r@.len() * 64 {
                    lemma_index_split(r@, i);
                }
            }
        }
        r
    }

    /// Sets the bit of terminal index `num` in `set`, reporting whether it
    /// was previously clear; an index at or past the terminal count is
    /// rejected and leaves the set unchanged.
    pub fn set_bit(&self, set: &mut TermSet, num: usize) -> (r: Result<bool, GrammarError>)
        requires
            self.wf(),
            old(set)@.len() == self.spec_words(),
        ensures
            final(set)@.len() == old(set)@.len(),
            match r {
                Ok(b) => num < self.spec_n_terms() && b == !ts_has(old(set)@, num as int)
                    && (forall|i: int|
                    ts_has(final(set)@, i) == (ts_has(old(set)@, i) || i == num)),
                Err(e) => e == GrammarError::InvalidTerminalIndex
                    && num >= self.spec_n_terms() && *final(set) == *old(set),
            },
    {
        if num >= self.n_terms {
            return Err(GrammarError::InvalidTerminalIndex);
        }
        proof {
            lemma_words_cover(self.n_terms as int, self.words as int, num as int);
        }
        let wi = num / 64;
        let sh = (num % 64) as u64;
        let bit: u64 = 1u64 << sh;
        let w = set.elems[wi];
        let was_clear = (w & bit) == 0;
        set.elems[wi] = w | bit;
        proof {
            let a = old(set)@;
            let b = set.elems@;
            lemma_index_split(a, num as int);
            lemma_test_bit(w, sh);
            lemma_or_bit_same(w, sh);
            assert forall|i: int|
                ts_has(b, i) == (ts_has(a, i) || i == num) by {
                if 0 <= i < a.len() * 64 {
                    lemma_index_split(a, i);
                    if i == num {
                    } else if i / 64 == wi {
                        lemma_or_bit_other(w, sh, (i % 64) as u64);
                    }
                }
            }
        }
        Ok(was_clear)
    }

    /// Whether the bit of terminal index `num` is set in `set`.
    pub fn test_bit(&self, set: &TermSet, num: usize) -> (r: bool)
        requires
            self.wf(),
            set@.len() == self.spec_words(),
            num < self.spec_n_terms(),
        ensures
            r == ts_has(set@, num as int),
    {
        proof {
            lemma_words_cover(self.n_terms as int, self.words as int, num as int);
            lemma_index_split(set@, num as int);
        }
        let wi = num / 64;
        let sh = (num % 64) as u64;
        let bit: u64 = 1u64 << sh;
        let r = (set.elems[wi] & bit) != 0;
        proof {
            lemma_test_bit(set@[num as int / 64], sh);
        }
        r
    }

    /// Whether the words of two sets are equal, bit for bit.
    fn sets_equal(a: &TermSet, b: &TermSet) -> (r: bool)
        ensures
            r == (a@ =~= b@),
    {
        if a.elems.len() != b.elems.len() {
            return false;
        }
        let mut k: usize = 0;
        while k < a.elems.len()
            invariant
                a@.len() == b@.len(),
                k <= a@.len(),
                forall|m: int| 0 <= m < k ==> a@[m] == b@[m],
            decreases a@.len() - k,
        {
            if a.elems[k] != b.elems[k] {
                return false;
            }
            k = k + 1;
        }
        true
    }

    /// Interns the bit pattern of `set`: a pattern already canonicalized
    /// yields `Existing` with the id it got first and leaves the store
    /// unchanged; a new pattern becomes the canonical copy under the next
    /// sequential id, yielded as `New`.
    pub fn insert(&mut self, set: TermSet) -> (r: InternResult)
        requires
            old(self).wf(),
            set@.len() == old(self).spec_words(),
        ensures
            final(self).wf(),
            final(self).spec_n_terms() == old(self).spec_n_terms(),
            final(self).spec_words() == old(self).spec_words(),
            match r {
                InternResult::Existing(id) => id < old(self).canon().len()
                    && old(self).canon()[id as int] == set@
                    && final(self).canon() == old(self).canon(),
                InternResult::New(id) => id == old(self).canon().len()
                    && !(exists|j: int|
                    0 <= j < old(self).canon().len() && old(self).canon()[j] == set@)
                    && final(self).canon() =~= old(self).canon().push(set@),
            },
    {
        let mut j: usize = 0;
        while j < self.sets.len()
            invariant
                self.wf(),
                j <= self.sets@.len(),
                set@.len() == self.spec_words(),
                forall|m: int| 0 <= m < j ==> self.canon()[m] != set@,
            decreases self.sets@.len() - j,
        {
            if Self::sets_equal(&self.sets[j], &set) {
                return InternResult::Existing(j);
            }
            proof {
                assert(self.canon()[j as int] == self.sets@[j as int]@);
            }
            j = j + 1;
        }
        proof {
            assert forall|m: int| 0 <= m < self.sets@.len() implies self.sets@[m]@ != set@ by {
                assert(self.canon()[m] == self.sets@[m]@);
            }
        }
        let ghost prior = self.sets@;
        let id = self.sets.len();
        self.sets.push(set);
        proof {
            assert forall|i2: int, j2: int|
                0 <= i2 < j2 < self.sets@.len() implies self.sets@[i2]@ != self.sets@[j2]@ by {
                if j2 < prior.len() {
                    assert(prior[i2]@ != prior[j2]@);
                } else {
                    assert(self.sets@[i2] == prior[i2]);
                }
            }
            assert(final(self).canon() =~= old(self).canon().push(set@));
        }
        InternResult::New(id)
    }

    /// The canonical set for a previously issued id.
    pub fn get(&self, id: usize) -> (r: &TermSet)
        requires
            self.wf(),
            id < self.canon().len(),
        ensures
            r@ == self.canon()[id as int],
    {
        &self.sets[id]
    }
}

/// A terminal index below the terminal count lies within the rounded-up words.
proof fn lemma_words_cover(n_terms: int, words: int, num: int)
    requires
        words == (n_terms + 63) / 64,
        0 <= num < n_terms,
    ensures
        num < words * 64,
        0 <= num / 64 < words,
{
    assert(num < words * 64 && 0 <= num / 64 < words) by (nonlinear_arith)
        requires
            words == (n_terms + 63) / 64,
            0 <= num < n_terms,
    ;
}

/// Law: uniting a subset into a set changes no word of it, so such a union
/// reports no change and leaves the set unmodified.
pub proof fn lemma_union_subset(a: Seq<u64>, b: Seq<u64>)
    requires
        a.len() == b.len(),
        forall|i: int| 0 <= i < a.len() * 64 ==> (ts_has(b, i) ==> ts_has(a, i)),
    ensures
        forall|k: int| 0 <= k < a.len() ==> (a[k] | b[k]) == a[k],
{
    assert forall|k: int| 0 <= k < a.len() implies (a[k] | b[k]) == a[k] by {
        if (a[k] | b[k]) != a[k] {
            lemma_changed_word_has_witness(a[k], b[k]);
            let sh = choose|sh: u64|
                sh < 64 && #[trigger] ((b[k] >> sh) & 1) == 1 && ((a[k] >> sh) & 1) != 1;
            let i = 64 * k + sh;
            assert(0 <= i < a.len() * 64) by (nonlinear_arith)
                requires
                    0 <= k < a.len(),
                    0 <= sh < 64,
                    i == 64 * k + sh,
            ;
            lemma_index_split(a, i);
            assert(i / 64 == k && i % 64 == sh);
            assert(ts_has(b, i) && !ts_has(a, i));
        }
    }
}

} // verus!
