//! Maximal 3-SAT, and its reduction to QUBO constraints.
//!
//! A problem is a conjunction of disjunctive clauses of one to three
//! literals. The reducer assigns each distinct variable an index (sorted by
//! name, so reduction is reproducible) and lowers every clause to quadratic
//! weights through an exact penalty gadget, introducing one auxiliary
//! variable per three-literal clause. The weights follow the minimization
//! convention: an assignment satisfying more clauses has a lower objective
//! value, so negated literals are expanded as `1 - x` before their
//! coefficients are collected.

use vstd::prelude::*;

verus! {

use crate::order::{dedup_adjacent, index_of_name, name_order};
use crate::qubo::{canonical_index, grown};
use vstd::string::StringExecFns;

broadcast use {vstd::multiset::group_multiset_axioms, vstd::seq_lib::group_to_multiset_ensures};

/// The name of a variable.
#[derive(Debug, Clone)]
pub struct Variable(pub String);

impl View for Variable {
    type V = Seq<char>;

    open spec fn view(&self) -> Seq<char> {
        self.0@
    }
}

/// Either a variable or a negated variable.
#[derive(Debug, Clone)]
pub struct Literal {
    /// The name of the variable.
    pub variable: Variable,
    /// If `true`, this literal evaluates to `true` exactly when the variable
    /// is assigned `true`; if `false`, exactly when the variable is assigned
    /// `false`.
    pub positive: bool,
}

impl View for Literal {
    type V = (Seq<char>, bool);

    open spec fn view(&self) -> (Seq<char>, bool) {
        (self.variable@, self.positive)
    }
}

impl Variable {
    /// The literal asserting this variable.
    pub fn positive(&self) -> (r: Literal)
        ensures
            r@ == (self@, true),
    {
        Literal { variable: Variable(self.0.clone()), positive: true }
    }

    /// The literal asserting this variable's negation.
    pub fn negative(&self) -> (r: Literal)
        ensures
            r@ == (self@, false),
    {
        Literal { variable: Variable(self.0.clone()), positive: false }
    }
}

/// A logical disjunction of literals.
#[derive(Debug, Clone)]
pub struct Or {
    /// It evaluates to `true` for a solution exactly when at least one of
    /// the literals evaluates to `true`.
    pub or: Vec<Literal>,
}

impl View for Or {
    type V = Seq<(Seq<char>, bool)>;

    open spec fn view(&self) -> Seq<(Seq<char>, bool)> {
        self.or@.map(|_i: int, l: Literal| l@)
    }
}

/// A logical conjunction of disjunctions.
#[derive(Debug, Clone)]
pub struct And {
    /// It evaluates to `true` for a solution exactly when all the
    /// disjunctions evaluate to `true`.
    pub and: Vec<Or>,
}

impl View for And {
    type V = Seq<Seq<(Seq<char>, bool)>>;

    open spec fn view(&self) -> Seq<Seq<(Seq<char>, bool)>> {
        self.and@.map(|_i: int, o: Or| o@)
    }
}

/// A problem formulated as an AND of ORs of variables or negated variables,
/// with an optional restriction of some variables to fixed values that is
/// applied when measured results are interpreted.
#[derive(Debug, Clone)]
pub struct Input {
    /// The conjunction to satisfy.
    pub conjunction: And,
    /// Variables restricted to a fixed value when results are read back.
    pub restrict: Vec<(Variable, bool)>,
}

/// An assignment of truth values to variables, looked up by name. A name
/// bound twice reads its first binding.
pub struct Env(pub Vec<(Variable, bool)>);

impl View for Env {
    type V = Seq<(Seq<char>, bool)>;

    open spec fn view(&self) -> Seq<(Seq<char>, bool)> {
        self.0@.map(|_i: int, p: (Variable, bool)| (p.0@, p.1))
    }
}

/// The first binding of a name in an association list, if any.
pub open spec fn spec_lookup(s: Seq<(Seq<char>, bool)>, x: Seq<char>) -> Option<bool>
    decreases s.len(),
{
    if s.len() == 0 {
        None
    } else if s[0].0 == x {
        Some(s[0].1)
    } else {
        spec_lookup(s.drop_first(), x)
    }
}

/// Whether a literal holds under an environment: its variable must be bound
/// to the literal's polarity.
pub open spec fn lit_sat(l: (Seq<char>, bool), env: Seq<(Seq<char>, bool)>) -> bool {
    spec_lookup(env, l.0) == Some(l.1)
}

/// Whether a clause holds under an environment: some literal of it holds.
pub open spec fn clause_sat(c: Seq<(Seq<char>, bool)>, env: Seq<(Seq<char>, bool)>) -> bool {
    exists|i: int| 0 <= i < c.len() && lit_sat(#[trigger] c[i], env)
}

/// Whether a formula holds under an environment: every clause holds.
pub open spec fn formula_sat(f: Seq<Seq<(Seq<char>, bool)>>, env: Seq<(Seq<char>, bool)>) -> bool {
    forall|i: int| 0 <= i < f.len() ==> clause_sat(#[trigger] f[i], env)
}

/// An error of the reduction: a clause held no literal at all, or more than
/// three.
#[derive(Debug, Clone, Copy, PartialEq, Eq, Structural)]
pub enum ReduceError {
    /// The clause size that was rejected.
    MalformedClause { size: usize },
}

/// The synthetic name given to the auxiliary variable created at index `i`.
pub open spec fn aux_name(i: nat) -> Seq<char> {
    seq!['w', '_'] + crate::text::spec_digits(i)
}

// ---------------------------------------------------------------------------
// The mathematical model of the reduction.
//
// A clause is modelled as a sequence of indexed literals `(v, positive)`.
// Every literal contributes weights to the matrix in the minimization
// convention: the clause's satisfaction count, a polynomial over the
// literals, is expanded with `L = x` for a positive literal and `L = 1 - x`
// for a negated one, and the negated coefficients of the resulting
// quadratic polynomial are accumulated (squares collapse onto the diagonal,
// constants are dropped).
// ---------------------------------------------------------------------------

/// One accumulation into the canonical entry of the pair `(x, y)`.
pub open spec fn mwrite(n: int, d: Seq<int>, x: int, y: int, delta: int) -> Seq<int> {
    let i = canonical_index(n, x, y);
    d.update(i, d[i] + delta)
}

/// The self-term of a literal: the linear coefficient of its satisfaction
/// reward (`+1` for `x`, `-1` for `1 - x`), negated for minimization.
pub open spec fn apply_self(n: int, d: Seq<int>, lit: (int, bool)) -> Seq<int> {
    mwrite(n, d, lit.0, lit.0, if lit.1 {
        -1
    } else {
        1
    })
}

/// The weights of a product term `c * La * Lb` of the clause polynomial:
/// the cross entry always, plus a linear correction on the partner's
/// diagonal for each negated literal (from expanding `1 - x`).
pub open spec fn apply_pair(n: int, d: Seq<int>, a: (int, bool), b: (int, bool), c: int) -> Seq<
    int,
> {
    let d1 = mwrite(n, d, a.0, b.0, if a.1 == b.1 {
        -c
    } else {
        c
    });
    let d2 = if !b.1 {
        mwrite(n, d1, a.0, a.0, if a.1 {
            -c
        } else {
            c
        })
    } else {
        d1
    };
    if !a.1 {
        mwrite(n, d2, b.0, b.0, if b.1 {
            -c
        } else {
            c
        })
    } else {
        d2
    }
}

/// One clause folded into the matrix state `(n, d, names)`.
///
/// - one literal `L`: maximize `L` itself;
/// - two literals: maximize `L1 + L2 - L1 L2`;
/// - three literals: the cubic identity needs an auxiliary variable `C`,
///   which grows the matrix by one node, and the purely quadratic objective
///   `L1 + L2 + L3 - L1 L2 - L1 L3 - L2 L3 + C (L1 + L2 + L3) - 2 C` is
///   accumulated.
pub open spec fn apply_clause(
    n: int,
    d: Seq<int>,
    names: Seq<Seq<char>>,
    lits: Seq<(int, bool)>,
) -> (int, Seq<int>, Seq<Seq<char>>) {
    if lits.len() <= 1 {
        (n, apply_self(n, d, lits[0]), names)
    } else if lits.len() == 2 {
        let d1 = apply_self(n, d, lits[0]);
        let d2 = apply_self(n, d1, lits[1]);
        (n, apply_pair(n, d2, lits[0], lits[1], -1), names)
    } else {
        let d1 = apply_self(n, d, lits[0]);
        let d2 = apply_self(n, d1, lits[1]);
        let d3 = apply_self(n, d2, lits[2]);
        let d4 = apply_pair(n, d3, lits[0], lits[1], -1);
        let d5 = apply_pair(n, d4, lits[0], lits[2], -1);
        let d6 = apply_pair(n, d5, lits[1], lits[2], -1);
        let g = grown(n, d6);
        let aux = (n, true);
        let e1 = apply_pair(n + 1, g, lits[0], aux, 1);
        let e2 = apply_pair(n + 1, e1, lits[1], aux, 1);
        let e3 = apply_pair(n + 1, e2, lits[2], aux, 1);
        let e4 = mwrite(n + 1, e3, n, n, 2);
        (n + 1, e4, names.push(aux_name(n as nat)))
    }
}

/// All clauses folded into the matrix state, first clause first.
pub open spec fn reduce_clauses(
    n: int,
    d: Seq<int>,
    names: Seq<Seq<char>>,
    clauses: Seq<Seq<(int, bool)>>,
) -> (int, Seq<int>, Seq<Seq<char>>)
    decreases clauses.len(),
{
    if clauses.len() == 0 {
        (n, d, names)
    } else {
        let s = apply_clause(n, d, names, clauses[0]);
        reduce_clauses(s.0, s.1, s.2, clauses.drop_first())
    }
}

/// Folding one more clause extends the fold from the right.
pub proof fn lemma_reduce_clauses_snoc(
    n: int,
    d: Seq<int>,
    names: Seq<Seq<char>>,
    clauses: Seq<Seq<(int, bool)>>,
    c: Seq<(int, bool)>,
)
    ensures
        reduce_clauses(n, d, names, clauses.push(c)) == apply_clause(
            reduce_clauses(n, d, names, clauses).0,
            reduce_clauses(n, d, names, clauses).1,
            reduce_clauses(n, d, names, clauses).2,
            c,
        ),
    decreases clauses.len(),
{
    if clauses.len() == 0 {
        assert(clauses.push(c)[0] == c);
        assert(clauses.push(c).drop_first() =~= Seq::<Seq<(int, bool)>>::empty());
        let s0 = apply_clause(n, d, names, c);
        assert(reduce_clauses(n, d, names, clauses.push(c)) == reduce_clauses(
            s0.0,
            s0.1,
            s0.2,
            clauses.push(c).drop_first(),
        ));
        assert(reduce_clauses(s0.0, s0.1, s0.2, Seq::<Seq<(int, bool)>>::empty()) == (
            s0.0,
            s0.1,
            s0.2,
        ));
        assert(reduce_clauses(n, d, names, clauses) == (n, d, names));
        assert((s0.0, s0.1, s0.2) == s0);
    } else {
        let s = apply_clause(n, d, names, clauses[0]);
        assert(clauses.push(c)[0] == clauses[0]);
        assert(clauses.push(c).drop_first() =~= clauses.drop_first().push(c));
        lemma_reduce_clauses_snoc(s.0, s.1, s.2, clauses.drop_first(), c);
        assert(reduce_clauses(n, d, names, clauses.push(c)) == reduce_clauses(
            s.0,
            s.1,
            s.2,
            clauses.drop_first().push(c),
        ));
        assert(reduce_clauses(n, d, names, clauses) == reduce_clauses(
            s.0,
            s.1,
            s.2,
            clauses.drop_first(),
        ));
    }
}

/// The names of the variables of a clause, in clause order.
pub open spec fn clause_names(c: Seq<(Seq<char>, bool)>) -> Seq<Seq<char>> {
    c.map(|_i: int, l: (Seq<char>, bool)| l.0)
}

/// The names of the variables of a formula, clause by clause, with
/// repetitions.
pub open spec fn formula_names(f: Seq<Seq<(Seq<char>, bool)>>) -> Seq<Seq<char>>
    decreases f.len(),
{
    if f.len() == 0 {
        Seq::empty()
    } else {
        formula_names(f.drop_last()) + clause_names(f.last())
    }
}

/// The distinct variables of a formula, sorted by name: the name list the
/// reduction assigns indices by.
pub open spec fn base_names(f: Seq<Seq<(Seq<char>, bool)>>) -> Seq<Seq<char>> {
    dedup_adjacent(formula_names(f).sort_by(name_order()))
}

/// A clause with each literal's variable replaced by its index in the base
/// name list.
pub open spec fn indexed_clause(base: Seq<Seq<char>>, c: Seq<(Seq<char>, bool)>) -> Seq<
    (int, bool),
> {
    c.map(|_i: int, l: (Seq<char>, bool)| (index_of_name(base, l.0), l.1))
}

/// The whole formula, indexed against its own base name list.
pub open spec fn indexed_formula(f: Seq<Seq<(Seq<char>, bool)>>) -> Seq<Seq<(int, bool)>> {
    f.map(|_i: int, c: Seq<(Seq<char>, bool)>| indexed_clause(base_names(f), c))
}

/// Whether every clause of the formula has an admissible size.
pub open spec fn sizes_ok(f: Seq<Seq<(Seq<char>, bool)>>) -> bool {
    forall|i: int| 0 <= i < f.len() ==> 1 <= #[trigger] f[i].len() <= 3
}

/// The reduction of a whole formula: the final node count, weight vector
/// and name list. Reduction is a function of the formula alone, which makes
/// it deterministic.
pub open spec fn spec_reduction(f: Seq<Seq<(Seq<char>, bool)>>) -> (
    int,
    Seq<int>,
    Seq<Seq<char>>,
) {
    let base = base_names(f);
    let n0 = base.len() as int;
    reduce_clauses(n0, Seq::new((n0 * n0) as nat, |_i: int| 0int), base, indexed_formula(f))
}

/// Every variable occurring in a formula occurs in its flattened name list.
proof fn lemma_formula_names_contain(f: Seq<Seq<(Seq<char>, bool)>>, j: int, t: int)
    requires
        0 <= j < f.len(),
        0 <= t < f[j].len(),
    ensures
        formula_names(f).contains(f[j][t].0),
    decreases f.len(),
{
    if j == f.len() - 1 {
        let names = clause_names(f.last());
        assert(names[t] == f[j][t].0);
        assert(formula_names(f)[formula_names(f.drop_last()).len() + t] == f[j][t].0);
    } else {
        lemma_formula_names_contain(f.drop_last(), j, t);
        let prefix = formula_names(f.drop_last());
        let i = choose|i: int| 0 <= i < prefix.len() && prefix[i] == f.drop_last()[j][t].0;
        assert(formula_names(f)[i] == f[j][t].0);
    }
}

/// Every variable of the formula is registered in the base name list.
proof fn lemma_base_contains(f: Seq<Seq<(Seq<char>, bool)>>, x: Seq<char>)
    requires
        formula_names(f).contains(x),
    ensures
        base_names(f).contains(x),
{
    let all = formula_names(f);
    let sorted = all.sort_by(name_order());
    crate::order::lemma_name_order_total();
    all.lemma_sort_by_ensures(name_order());
    assert(all.to_multiset().count(x) > 0);
    assert(sorted.contains(x));
    crate::order::lemma_dedup_adjacent_contains(sorted, x);
}

/// Growing the matrix cannot enlarge any weight: the new storage holds the
/// old weights and zeroes.
proof fn lemma_grown_bound(n: int, d: Seq<int>, b: int)
    requires
        0 <= n,
        0 <= b,
        d.len() == n * n,
        forall|k: int| 0 <= k < d.len() ==> -b <= #[trigger] d[k] <= b,
    ensures
        forall|k: int| 0 <= k < grown(n, d).len() ==> -b <= #[trigger] grown(n, d)[k] <= b,
{
    assert forall|k: int| 0 <= k < grown(n, d).len() implies -b <= #[trigger] grown(n, d)[k]
        <= b by {
        let row = k / (n + 1);
        let col = k % (n + 1);
        vstd::arithmetic::div_mod::lemma_fundamental_div_mod(k, n + 1);
        vstd::arithmetic::div_mod::lemma_mod_bound(k, n + 1);
        vstd::arithmetic::div_mod::lemma_div_is_ordered(0, k, n + 1);
        if row < n && col < n {
            assert(0 <= row * n + col < n * n) by (nonlinear_arith)
                requires
                    0 <= row < n,
                    0 <= col < n,
            {}
        }
    }
}

/// Squaring keeps order on the nonnegative integers.
proof fn lemma_square_ordered(x: int, y: int)
    requires
        0 <= x <= y,
    ensures
        x * x <= y * y,
{
    assert(x * x <= y * y) by (nonlinear_arith)
        requires
            0 <= x <= y,
    {}
}

/// One accumulation, wrapped so that the running bound on the weights
/// discharges the matrix's overflow precondition. The bound grows by at
/// most the written delta.
fn bounded_delta(
    m: &mut crate::qubo::Constraints,
    x: usize,
    y: usize,
    delta: i64,
    Ghost(bound): Ghost<int>,
)
    requires
        old(m).wf(),
        x < old(m).spec_num_nodes(),
        y < old(m).spec_num_nodes(),
        -2 <= delta <= 2,
        0 <= bound,
        bound + 2 <= i64::MAX,
        forall|k: int|
            0 <= k < old(m).spec_data().len() ==> -bound <= #[trigger] old(m).spec_data()[k]
                <= bound,
    ensures
        final(m).wf(),
        final(m).spec_num_nodes() == old(m).spec_num_nodes(),
        final(m).spec_names() == old(m).spec_names(),
        final(m).spec_data() == mwrite(
            old(m).spec_num_nodes(),
            old(m).spec_data(),
            x as int,
            y as int,
            delta as int,
        ),
        forall|k: int|
            0 <= k < final(m).spec_data().len() ==> -(bound + 2)
                <= #[trigger] final(m).spec_data()[k] <= bound + 2,
{
    proof {
        let n = old(m).spec_num_nodes();
        let i = canonical_index(n, x as int, y as int);
        assert(0 <= i < n * n) by (nonlinear_arith)
            requires
                0 <= x < n,
                0 <= y < n,
                i == if x <= y {
                    n * (y as int) + x
                } else {
                    n * (x as int) + y
                },
        {}
    }
    let result = m.delta_at(x, y, delta);
    proof {
        assert(result is Ok);
    }
}

/// The self-term of one literal, accumulated into the matrix.
fn exec_self(
    m: &mut crate::qubo::Constraints,
    v: usize,
    positive: bool,
    Ghost(bound): Ghost<int>,
)
    requires
        old(m).wf(),
        v < old(m).spec_num_nodes(),
        0 <= bound,
        bound + 2 <= i64::MAX,
        forall|k: int|
            0 <= k < old(m).spec_data().len() ==> -bound <= #[trigger] old(m).spec_data()[k]
                <= bound,
    ensures
        final(m).wf(),
        final(m).spec_num_nodes() == old(m).spec_num_nodes(),
        final(m).spec_names() == old(m).spec_names(),
        final(m).spec_data() == apply_self(
            old(m).spec_num_nodes(),
            old(m).spec_data(),
            (v as int, positive),
        ),
        forall|k: int|
            0 <= k < final(m).spec_data().len() ==> -(bound + 2)
                <= #[trigger] final(m).spec_data()[k] <= bound + 2,
{
    let delta: i64 = if positive {
        -1
    } else {
        1
    };
    bounded_delta(m, v, v, delta, Ghost(bound));
}

/// The weights of one product term `c * La * Lb`, accumulated into the
/// matrix: the cross entry, then the diagonal corrections that expanding
/// negated literals calls for.
fn exec_pair(
    m: &mut crate::qubo::Constraints,
    a_v: usize,
    a_pos: bool,
    b_v: usize,
    b_pos: bool,
    c: i64,
    Ghost(bound): Ghost<int>,
)
    requires
        old(m).wf(),
        a_v < old(m).spec_num_nodes(),
        b_v < old(m).spec_num_nodes(),
        c == 1 || c == -1,
        0 <= bound,
        bound + 6 <= i64::MAX,
        forall|k: int|
            0 <= k < old(m).spec_data().len() ==> -bound <= #[trigger] old(m).spec_data()[k]
                <= bound,
    ensures
        final(m).wf(),
        final(m).spec_num_nodes() == old(m).spec_num_nodes(),
        final(m).spec_names() == old(m).spec_names(),
        final(m).spec_data() == apply_pair(
            old(m).spec_num_nodes(),
            old(m).spec_data(),
            (a_v as int, a_pos),
            (b_v as int, b_pos),
            c as int,
        ),
        forall|k: int|
            0 <= k < final(m).spec_data().len() ==> -(bound + 6)
                <= #[trigger] final(m).spec_data()[k] <= bound + 6,
{
    let cross: i64 = if a_pos == b_pos {
        -c
    } else {
        c
    };
    bounded_delta(m, a_v, b_v, cross, Ghost(bound));
    if !b_pos {
        let fix: i64 = if a_pos {
            -c
        } else {
            c
        };
        bounded_delta(m, a_v, a_v, fix, Ghost(bound + 2));
    }
    if !a_pos {
        let fix: i64 = if b_pos {
            -c
        } else {
            c
        };
        bounded_delta(m, b_v, b_v, fix, Ghost(bound + 4));
    }
}

/// The synthetic name for the auxiliary variable at index `i`.
fn format_aux_name(i: usize) -> (r: String)
    ensures
        r@ == aux_name(i as nat),
{
    proof {
        reveal_strlit("w_");
    }
    let mut s = String::from_str("w_");
    let digits = crate::text::digits_string(i as u64);
    s.append(digits.as_str());
    proof {
        assert(s@ =~= aux_name(i as nat));
    }
    s
}

/// A fresh vector holding the same names.
fn clone_names(v: &Vec<String>) -> (r: Vec<String>)
    ensures
        r@ == v@,
{
    let mut r: Vec<String> = Vec::new();
    let mut i: usize = 0;
    while i < v.len()
        invariant
            i <= v@.len(),
            r@ == v@.take(i as int),
        decreases v@.len() - i,
    {
        r.push(v[i].clone());
        proof {
            assert(r@ =~= v@.take(i as int + 1));
        }
        i = i + 1;
    }
    proof {
        assert(v@.take(v@.len() as int) =~= v@);
    }
    r
}

/// Every variable name of the conjunction, in formula order, with
/// repetitions.
fn collect_names(conjunction: &And) -> (r: Vec<String>)
    ensures
        r.deep_view() == formula_names(conjunction@),
{
    let ghost f = conjunction@;
    let mut all_names: Vec<String> = Vec::new();
    let mut ci: usize = 0;
    while ci < conjunction.and.len()
        invariant
            f == conjunction@,
            ci <= f.len(),
            all_names.deep_view() == formula_names(f.take(ci as int)),
        decreases f.len() - ci,
    {
        let clause = &conjunction.and[ci];
        let mut li: usize = 0;
        while li < clause.or.len()
            invariant
                f == conjunction@,
                ci < f.len(),
                clause@ == f[ci as int],
                li <= clause.or@.len(),
                all_names.deep_view() == formula_names(f.take(ci as int)) + clause_names(
                    f[ci as int],
                ).take(li as int),
            decreases clause.or@.len() - li,
        {
            let ghost prev_dv = all_names.deep_view();
            let name = clause.or[li].variable.0.clone();
            proof {
                assert(name@ == clause.or@[li as int].variable@);
            }
            all_names.push(name);
            proof {
                assert(all_names.deep_view() =~= prev_dv.push(clause.or@[li as int].variable@))
                    by {
                    assert(forall|k: int|
                        0 <= k < prev_dv.len() ==> all_names@[k].deep_view()
                            == #[trigger] prev_dv[k]);
                }
                assert(clause_names(f[ci as int])[li as int] == clause.or@[li as int]@.0);
                assert(all_names.deep_view() =~= formula_names(f.take(ci as int)) + clause_names(
                    f[ci as int],
                ).take(li as int + 1));
            }
            li = li + 1;
        }
        proof {
            assert(clause_names(f[ci as int]).take(clause.or@.len() as int) =~= clause_names(
                f[ci as int],
            ));
            assert(f.take(ci as int + 1).drop_last() =~= f.take(ci as int));
            assert(f.take(ci as int + 1).last() == f[ci as int]);
            assert(all_names.deep_view() == formula_names(f.take(ci as int + 1)));
        }
        ci = ci + 1;
    }
    proof {
        assert(f.take(f.len() as int) =~= f);
    }
    all_names
}

impl Input {
    /// Compiles the formula to a set of QUBO constraints: each clause is
    /// lowered to quadratic weights by its exact penalty gadget, with one
    /// auxiliary variable appended per three-literal clause. The result is
    /// exactly the mathematical reduction of the formula, so reduction is
    /// deterministic. A clause with no literal, or more than three, is
    /// rejected with an error naming the clause's size; the first such
    /// clause in formula order decides the error.
    ///
    /// The two preconditions are machine limits: the accumulated weights
    /// must stay within the matrix's integer range, and the grown matrix
    /// must stay addressable.
    pub fn to_qubo(&self) -> (r: Result<crate::qubo::Constraints, ReduceError>)
        requires
            44 * self.conjunction@.len() <= i64::MAX,
            ({
                let nmax = base_names(self.conjunction@).len() + self.conjunction@.len();
                nmax * nmax <= usize::MAX
            }),
        ensures
            r is Ok <==> sizes_ok(self.conjunction@),
            r matches Ok(m) ==> {
                &&& m.wf()
                &&& m.spec_num_nodes() == spec_reduction(self.conjunction@).0
                &&& m.spec_data() == spec_reduction(self.conjunction@).1
                &&& m.spec_names() == spec_reduction(self.conjunction@).2
            },
            r matches Err(e) ==> exists|i: int|
                {
                    &&& 0 <= i < self.conjunction@.len()
                    &&& !(1 <= #[trigger] self.conjunction@[i].len() <= 3)
                    &&& forall|j: int|
                        0 <= j < i ==> 1 <= #[trigger] self.conjunction@[j].len() <= 3
                    &&& e == (ReduceError::MalformedClause {
                        size: self.conjunction@[i].len() as usize,
                    })
                },
    {
        let ghost f = self.conjunction@;

        // Collect every variable name in formula order.
        let all_names = collect_names(&self.conjunction);

        // Assign each distinct variable an index by sorted name order.
        let sorted = crate::order::sort_names(all_names);
        let base = crate::order::dedup_names(&sorted);
        proof {
            assert(base.deep_view() == base_names(f));
        }
        let n0 = base.len();
        proof {
            assert(base.deep_view().len() == base@.len());
            lemma_square_ordered(n0 as int, n0 as int + f.len() as int);
        }
        let names_copy = clone_names(&base);
        let mut m = crate::qubo::Constraints::new(n0, names_copy);
        let ghost zeros = Seq::new((n0 * n0) as nat, |_i: int| 0int);
        let ghost iclauses = indexed_formula(f);
        proof {
            assert(m.spec_names() =~= base_names(f));
            assert(iclauses.take(0) =~= Seq::<Seq<(int, bool)>>::empty());
        }

        // Fold the clauses into the matrix, one by one.
        let mut j: usize = 0;
        while j < self.conjunction.and.len()
            invariant
                f == self.conjunction@,
                j <= f.len(),
                44 * f.len() <= i64::MAX,
                (n0 + f.len()) * (n0 + f.len()) <= usize::MAX,
                base.deep_view() == base_names(f),
                n0 == base@.len(),
                n0 == base_names(f).len(),
                zeros == Seq::new((n0 * n0) as nat, |_i: int| 0int),
                iclauses == indexed_formula(f),
                m.wf(),
                n0 <= m.spec_num_nodes() <= n0 + j,
                forall|t: int| 0 <= t < j ==> 1 <= #[trigger] f[t].len() <= 3,
                (m.spec_num_nodes(), m.spec_data(), m.spec_names()) == reduce_clauses(
                    n0 as int,
                    zeros,
                    base_names(f),
                    iclauses.take(j as int),
                ),
                forall|k: int|
                    0 <= k < m.spec_data().len() ==> -(44 * j) <= #[trigger] m.spec_data()[k] <= 44
                        * j,
            decreases f.len() - j,
        {
            let clause = &self.conjunction.and[j];
            let size = clause.or.len();
            if size == 0 || size > 3 {
                proof {
                    assert(f[j as int].len() == size);
                }
                return Err(ReduceError::MalformedClause { size });
            }

            // Resolve each literal to its variable's index.
            let mut vids: Vec<usize> = Vec::new();
            let mut pols: Vec<bool> = Vec::new();
            let mut t: usize = 0;
            while t < clause.or.len()
                invariant
                    f == self.conjunction@,
                    j < f.len(),
                    clause@ == f[j as int],
                    t <= clause.or@.len(),
                    base.deep_view() == base_names(f),
                    n0 == base@.len(),
                    n0 == base_names(f).len(),
                    vids@.len() == t,
                    pols@.len() == t,
                    forall|u: int|
                        0 <= u < t ==> (#[trigger] vids@[u]) as int == indexed_clause(
                            base_names(f),
                            f[j as int],
                        )[u].0,
                    forall|u: int|
                        0 <= u < t ==> #[trigger] pols@[u] == indexed_clause(
                            base_names(f),
                            f[j as int],
                        )[u].1,
                    forall|u: int| 0 <= u < t ==> (#[trigger] vids@[u]) < n0,
                decreases clause.or@.len() - t,
            {
                let lit = &clause.or[t];
                proof {
                    assert(lit@ == f[j as int][t as int]);
                    lemma_formula_names_contain(f, j as int, t as int);
                    lemma_base_contains(f, lit.variable@);
                }
                let idx = crate::order::find_name_index(&base, &lit.variable.0);
                vids.push(idx);
                pols.push(lit.positive);
                t = t + 1;
            }

            let ghost pre_n = m.spec_num_nodes();
            let ghost pre_d = m.spec_data();
            let ghost pre_names = m.spec_names();
            let ghost cl = iclauses[j as int];
            proof {
                assert(cl == indexed_clause(base_names(f), f[j as int]));
                assert(cl.len() == size);
                assert(forall|u: int| 0 <= u < size ==> cl[u] == ((#[trigger] vids@[u]) as int,
                pols@[u]));
            }
            let ghost bound0 = 44 * (j as int);

            if size == 1 {
                exec_self(&mut m, vids[0], pols[0], Ghost(bound0));
            } else if size == 2 {
                exec_self(&mut m, vids[0], pols[0], Ghost(bound0));
                exec_self(&mut m, vids[1], pols[1], Ghost(bound0 + 2));
                exec_pair(&mut m, vids[0], pols[0], vids[1], pols[1], -1, Ghost(bound0 + 4));
            } else {
                exec_self(&mut m, vids[0], pols[0], Ghost(bound0));
                exec_self(&mut m, vids[1], pols[1], Ghost(bound0 + 2));
                exec_self(&mut m, vids[2], pols[2], Ghost(bound0 + 4));
                exec_pair(&mut m, vids[0], pols[0], vids[1], pols[1], -1, Ghost(bound0 + 6));
                exec_pair(&mut m, vids[0], pols[0], vids[2], pols[2], -1, Ghost(bound0 + 12));
                exec_pair(&mut m, vids[1], pols[1], vids[2], pols[2], -1, Ghost(bound0 + 18));

                // Introduce the clause's auxiliary variable.
                let c_index = m.num_nodes();
                let aux_label = format_aux_name(c_index);
                proof {
                    lemma_square_ordered(
                        m.spec_num_nodes() + 1,
                        n0 as int + f.len() as int,
                    );
                    lemma_grown_bound(m.spec_num_nodes(), m.spec_data(), bound0 + 24);
                }
                let c_check = m.add_variable(aux_label);
                proof {
                    assert(c_check == c_index);
                }
                exec_pair(&mut m, vids[0], pols[0], c_index, true, 1, Ghost(bound0 + 24));
                exec_pair(&mut m, vids[1], pols[1], c_index, true, 1, Ghost(bound0 + 30));
                exec_pair(&mut m, vids[2], pols[2], c_index, true, 1, Ghost(bound0 + 36));
                bounded_delta(&mut m, c_index, c_index, 2, Ghost(bound0 + 42));
            }

            proof {
                let stepped = apply_clause(pre_n, pre_d, pre_names, cl);
                assert((m.spec_num_nodes(), m.spec_data(), m.spec_names()) == stepped);
                lemma_reduce_clauses_snoc(
                    n0 as int,
                    zeros,
                    base_names(f),
                    iclauses.take(j as int),
                    cl,
                );
                assert(iclauses.take(j as int + 1) =~= iclauses.take(j as int).push(cl));
            }
            j = j + 1;
        }
        proof {
            assert(iclauses.take(f.len() as int) =~= iclauses);
        }
        Ok(m)
    }
}


impl Variable {
    /// The value this variable is bound to in the environment. An unbound
    /// variable is an internal error of the caller, recorded as a
    /// precondition.
    pub fn eval(&self, env: &Env) -> (r: bool)
        requires
            spec_lookup(env@, self@) is Some,
        ensures
            Some(r) == spec_lookup(env@, self@),
    {
        proof {
            assert(env@.skip(0) =~= env@);
        }
        let mut i: usize = 0;
        loop
            invariant
                spec_lookup(env@, self@) is Some,
                i <= env.0@.len(),
                spec_lookup(env@.skip(i as int), self@) == spec_lookup(env@, self@),
            decreases env.0@.len() - i,
        {
            proof {
                if i == env.0@.len() {
                    assert(env@.skip(i as int) =~= Seq::<(Seq<char>, bool)>::empty());
                }
            }
            if i < env.0.len() {
                let pair = &env.0[i];
                proof {
                    assert(env@.skip(i as int)[0] == env@[i as int]);
                    assert(env@.skip(i as int).drop_first() =~= env@.skip(i as int + 1));
                }
                if pair.0.0.eq(&self.0) {
                    return pair.1;
                }
            }
            i = i + 1;
        }
    }
}

impl Literal {
    /// Whether this literal holds under the environment.
    pub fn eval(&self, env: &Env) -> (r: bool)
        requires
            spec_lookup(env@, self.variable@) is Some,
        ensures
            r == lit_sat(self@, env@),
    {
        let value = self.variable.eval(env);
        if self.positive {
            value
        } else {
            !value
        }
    }
}

impl Or {
    /// The variables this disjunction mentions, in clause order, with
    /// repetitions.
    pub fn variables(&self) -> (r: Vec<Variable>)
        ensures
            r@.map(|_i: int, v: Variable| v@) == clause_names(self@),
    {
        let mut r: Vec<Variable> = Vec::new();
        let mut i: usize = 0;
        while i < self.or.len()
            invariant
                i <= self.or@.len(),
                r@.map(|_i: int, v: Variable| v@) == clause_names(self@).take(i as int),
            decreases self.or@.len() - i,
        {
            let ghost prev = r@.map(|_i: int, v: Variable| v@);
            r.push(Variable(self.or[i].variable.0.clone()));
            proof {
                assert(r@.map(|_i: int, v: Variable| v@) =~= prev.push(
                    self.or@[i as int].variable@,
                )) by {
                    assert(forall|k: int| 0 <= k < prev.len() ==> (#[trigger] prev[k]) == r@[k]@);
                }
                assert(clause_names(self@)[i as int] == self.or@[i as int]@.0);
                assert(r@.map(|_i: int, v: Variable| v@) =~= clause_names(self@).take(
                    i as int + 1,
                ));
            }
            i = i + 1;
        }
        proof {
            assert(clause_names(self@).take(self.or@.len() as int) =~= clause_names(self@));
        }
        r
    }

    /// Whether this disjunction holds under the environment: at least one
    /// of its literals does.
    pub fn eval(&self, env: &Env) -> (r: bool)
        requires
            forall|i: int|
                0 <= i < self@.len() ==> spec_lookup(env@, (#[trigger] self@[i]).0) is Some,
        ensures
            r == clause_sat(self@, env@),
    {
        let mut i: usize = 0;
        while i < self.or.len()
            invariant
                i <= self.or@.len(),
                forall|j: int|
                    0 <= j < self@.len() ==> spec_lookup(env@, (#[trigger] self@[j]).0) is Some,
                forall|j: int| 0 <= j < i ==> !lit_sat(#[trigger] self@[j], env@),
            decreases self.or@.len() - i,
        {
            proof {
                assert(self@[i as int] == self.or@[i as int]@);
            }
            if self.or[i].eval(env) {
                proof {
                    assert(lit_sat(self@[i as int], env@));
                }
                return true;
            }
            i = i + 1;
        }
        false
    }
}

impl And {
    /// Whether this conjunction holds under the environment: all of its
    /// disjunctions do.
    pub fn eval(&self, env: &Env) -> (r: bool)
        requires
            forall|i: int, t: int|
                0 <= i < self@.len() && 0 <= t < self@[i].len() ==> spec_lookup(
                    env@,
                    (#[trigger] self@[i][t]).0,
                ) is Some,
        ensures
            r == formula_sat(self@, env@),
    {
        let mut i: usize = 0;
        while i < self.and.len()
            invariant
                i <= self.and@.len(),
                forall|j: int, t: int|
                    0 <= j < self@.len() && 0 <= t < self@[j].len() ==> spec_lookup(
                        env@,
                        (#[trigger] self@[j][t]).0,
                    ) is Some,
                forall|j: int| 0 <= j < i ==> clause_sat(#[trigger] self@[j], env@),
            decreases self.and@.len() - i,
        {
            let clause = &self.and[i];
            proof {
                assert(clause@ == self@[i as int]);
                assert forall|t: int| 0 <= t < clause@.len() implies spec_lookup(
                    env@,
                    (#[trigger] clause@[t]).0,
                ) is Some by {
                    assert(clause@[t] == self@[i as int][t]);
                }
            }
            if !clause.eval(env) {
                return false;
            }
            i = i + 1;
        }
        true
    }
}

/// Wraps a list of names back into variables.
fn wrap_variables(names: Vec<String>) -> (r: Vec<Variable>)
    ensures
        r@.map(|_i: int, v: Variable| v@) == names.deep_view(),
{
    let mut r: Vec<Variable> = Vec::new();
    let mut i: usize = 0;
    while i < names.len()
        invariant
            i <= names@.len(),
            r@.map(|_i: int, v: Variable| v@) == names.deep_view().take(i as int),
        decreases names@.len() - i,
    {
        let ghost prev = r@.map(|_i: int, v: Variable| v@);
        r.push(Variable(names[i].clone()));
        proof {
            assert(r@.map(|_i: int, v: Variable| v@) =~= prev.push(names.deep_view()[i as int]))
                by {
                assert(forall|k: int|
                    0 <= k < prev.len() ==> (#[trigger] prev[k]) == r@[k]@);
            }
            assert(r@.map(|_i: int, v: Variable| v@) =~= names.deep_view().take(i as int + 1));
        }
        i = i + 1;
    }
    proof {
        assert(names.deep_view().take(names@.len() as int) =~= names.deep_view());
    }
    r
}

/// A name bound somewhere in an association list is found by the lookup.
proof fn lemma_lookup_present(env: Seq<(Seq<char>, bool)>, x: Seq<char>, k: int)
    requires
        0 <= k < env.len(),
        env[k].0 == x,
    ensures
        spec_lookup(env, x) is Some,
    decreases k,
{
    if env[0].0 != x {
        assert(env.drop_first()[k - 1] == env[k]);
        lemma_lookup_present(env.drop_first(), x, k - 1);
    }
}

/// The determinism of the reduction, as a law: the reduced node count,
/// weight matrix and ordered name list are a function of the formula alone,
/// and `to_qubo` returns exactly that function's value, so two runs on
/// identical input return identical results.
pub proof fn lemma_reduction_deterministic(x: &Input, y: &Input)
    requires
        x.conjunction@ == y.conjunction@,
    ensures
        spec_reduction(x.conjunction@) == spec_reduction(y.conjunction@),
{
}

impl Input {
    /// The variables restricted to a fixed value, as an association list.
    pub open spec fn restrict_view(self) -> Seq<(Seq<char>, bool)> {
        self.restrict@.map(|_i: int, p: (Variable, bool)| (p.0@, p.1))
    }

    /// The fixed value this input restricts a variable to, if any.
    fn lookup_restrict(&self, name: &String) -> (r: Option<bool>)
        ensures
            r == spec_lookup(self.restrict_view(), name@),
    {
        proof {
            assert(self.restrict_view().skip(0) =~= self.restrict_view());
        }
        let mut i: usize = 0;
        loop
            invariant
                i <= self.restrict@.len(),
                spec_lookup(self.restrict_view().skip(i as int), name@) == spec_lookup(
                    self.restrict_view(),
                    name@,
                ),
            decreases self.restrict@.len() - i,
        {
            proof {
                if i == self.restrict@.len() {
                    assert(self.restrict_view().skip(i as int) =~= Seq::<(
                        Seq<char>,
                        bool,
                    )>::empty());
                }
            }
            if i < self.restrict.len() {
                let pair = &self.restrict[i];
                proof {
                    assert(self.restrict_view().skip(i as int)[0] == self.restrict_view()[
                        i as int]);
                    assert(self.restrict_view().skip(i as int).drop_first()
                        =~= self.restrict_view().skip(i as int + 1));
                }
                if pair.0.0.eq(name) {
                    return Some(pair.1);
                }
            } else {
                return None;
            }
            i = i + 1;
        }
    }

    /// The distinct variables of the formula, in order of first occurrence
    /// runs (adjacent repetitions collapsed).
    pub fn variables(&self) -> (r: Vec<Variable>)
        ensures
            r@.map(|_i: int, v: Variable| v@) == dedup_adjacent(formula_names(self.conjunction@)),
    {
        let all_names = collect_names(&self.conjunction);
        wrap_variables(crate::order::dedup_names(&all_names))
    }

    /// The distinct variables of the formula, sorted by name: index `i` of
    /// this list is the node index the reduction gives that variable.
    pub fn ordered_variables(&self) -> (r: Vec<Variable>)
        ensures
            r@.map(|_i: int, v: Variable| v@) == base_names(self.conjunction@),
    {
        let all_names = collect_names(&self.conjunction);
        let sorted = crate::order::sort_names(all_names);
        wrap_variables(crate::order::dedup_names(&sorted))
    }

    /// Reads one measured sample against this input: `bits` holds one
    /// measured value per variable, in the order of `ordered_variables`.
    /// The sample is discarded (`None`) when it contradicts a restricted
    /// variable; otherwise the formula is evaluated under the sampled
    /// assignment.
    pub fn interpret_sample(&self, bits: &Vec<bool>) -> (r: Option<bool>)
        requires
            bits@.len() >= base_names(self.conjunction@).len(),
        ensures
            ({
                let base = base_names(self.conjunction@);
                let env = Seq::new(base.len(), |i: int| (base[i], bits@[i]));
                &&& (r is None <==> exists|i: int|
                    0 <= i < base.len() && ((#[trigger] spec_lookup(
                        self.restrict_view(),
                        base[i],
                    )) matches Some(v) && v != bits@[i]))
                &&& (r matches Some(b) ==> b == formula_sat(self.conjunction@, env))
            }),
    {
        let ghost base = base_names(self.conjunction@);
        let ghost env_model = Seq::new(base.len(), |i: int| (base[i], bits@[i]));
        let vars = self.ordered_variables();
        let mut env_list: Vec<(Variable, bool)> = Vec::new();
        let mut i: usize = 0;
        while i < vars.len()
            invariant
                vars@.map(|_i: int, v: Variable| v@) == base,
                base == base_names(self.conjunction@),
                bits@.len() >= base.len(),
                env_model == Seq::new(base.len(), |k: int| (base[k], bits@[k])),
                i <= vars@.len(),
                env_list@.map(|_i: int, p: (Variable, bool)| (p.0@, p.1)) == env_model.take(
                    i as int,
                ),
                forall|j: int|
                    0 <= j < i ==> !((#[trigger] spec_lookup(
                        self.restrict_view(),
                        base[j],
                    )) matches Some(v) && v != bits@[j]),
            decreases vars@.len() - i,
        {
            proof {
                assert(vars@[i as int]@ == base[i as int]);
            }
            match self.lookup_restrict(&vars[i].0) {
                Some(required) => {
                    if bits[i] != required {
                        return None;
                    }
                },
                None => {},
            }
            let ghost prev = env_list@.map(|_i: int, p: (Variable, bool)| (p.0@, p.1));
            env_list.push((Variable(vars[i].0.clone()), bits[i]));
            proof {
                assert(env_list@.map(|_i: int, p: (Variable, bool)| (p.0@, p.1)) =~= prev.push(
                    (base[i as int], bits@[i as int]),
                )) by {
                    assert(forall|k: int|
                        0 <= k < prev.len() ==> (#[trigger] prev[k]) == (
                            env_list@[k].0@,
                            env_list@[k].1,
                        ));
                }
                assert(env_list@.map(|_i: int, p: (Variable, bool)| (p.0@, p.1)) =~= env_model
                    .take(i as int + 1));
            }
            i = i + 1;
        }
        proof {
            assert(env_model.take(base.len() as int) =~= env_model);
        }
        let env = Env(env_list);
        proof {
            assert(env@ == env_model);
            assert forall|a: int, t: int|
                0 <= a < self.conjunction@.len() && 0 <= t < self.conjunction@[a].len()
                implies spec_lookup(env@, (#[trigger] self.conjunction@[a][t]).0) is Some by {
                lemma_formula_names_contain(self.conjunction@, a, t);
                lemma_base_contains(self.conjunction@, self.conjunction@[a][t].0);
                let k = choose|k: int|
                    0 <= k < base.len() && base[k] == self.conjunction@[a][t].0;
                assert(env@[k].0 == self.conjunction@[a][t].0);
                lemma_lookup_present(env@, self.conjunction@[a][t].0, k);
            }
        }
        Some(self.conjunction.eval(&env))
    }
}

} // verus!
