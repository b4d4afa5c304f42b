use vstd::prelude::*;

use crate::rational::{Rational, lemma_rational_parts};
use vstd::std_specs::cmp::PartialEqSpec;

verus! {

/// The domain of a variable.
#[derive(Clone, Copy, Debug, PartialEq, Eq, Structural)]
pub enum VarType {
    Continuous,
    Integer,
}

/// A variable of a problem: the position at which the problem created it,
/// marked with the problem that created it.
#[derive(Clone, Copy)]
pub struct Var {
    index: usize,
    problem: Ghost<int>,
}

impl Var {
    /// The position of the variable among those its problem created.
    pub closed spec fn id(self) -> int {
        self.index as int
    }

    /// The mark of the problem that created the variable.
    pub closed spec fn owner(self) -> int {
        self.problem@
    }

    /// The position of the variable among those its problem created.
    pub fn index(&self) -> (i: usize)
        ensures
            i == self.id(),
    {
        self.index
    }
}

impl PartialEq for Var {
    /// Variables of one problem are equal when they are at the same position.
    fn eq(&self, other: &Var) -> (r: bool) {
        self.index == other.index
    }
}

impl Eq for Var {
}

impl vstd::std_specs::cmp::PartialEqSpecImpl for Var {
    open spec fn obeys_eq_spec() -> bool {
        true
    }

    open spec fn eq_spec(&self, other: &Var) -> bool {
        self.id() == other.id()
    }
}

/// What the problem records of a variable: its bounds (`None` where it is
/// unbounded), its objective coefficient, its domain, and whether it has
/// been added to the problem.
#[derive(Clone, Copy, Debug)]
pub struct VarData {
    pub lb: Option<Rational>,
    pub ub: Option<Rational>,
    pub obj: Rational,
    pub vartype: VarType,
    pub added: bool,
}

/// A freshly created variable: unbounded both ways, objective coefficient
/// zero, continuous, not yet added.
pub open spec fn is_fresh(d: VarData) -> bool {
    &&& d.lb is None
    &&& d.ub is None
    &&& d.obj.num() == 0
    &&& d.vartype == VarType::Continuous
    &&& !d.added
}

/// A named linear constraint `lhs <= sum of vals[i] * vars[i] <= rhs`, a
/// missing side being unbounded.
pub struct LinearModel {
    pub name: Seq<char>,
    pub lhs: Option<Rational>,
    pub vals: Seq<Rational>,
    pub vars: Seq<Var>,
    pub rhs: Option<Rational>,
}

/// The content of a problem: its name, every variable it created with its
/// name, and its constraints in the order they were added.
pub struct ProblemModel {
    pub name: Seq<char>,
    pub vars: Seq<VarData>,
    pub var_names: Seq<Seq<char>>,
    pub cons: Seq<LinearModel>,
}

/// A name the solver can take: it holds no zero character.
pub open spec fn is_c_name(name: Seq<char>) -> bool {
    !name.contains('\0')
}

impl ProblemModel {
    /// `v` is a variable of this problem that has been added to it.
    pub open spec fn has_var(self, v: Var) -> bool {
        0 <= v.id() < self.vars.len() && self.vars[v.id()].added
    }

    /// The constraint pairs each coefficient with one variable of the problem.
    pub open spec fn cons_ok(self, c: LinearModel) -> bool {
        &&& c.vals.len() == c.vars.len()
        &&& forall|i: int| 0 <= i < c.vars.len() ==> self.has_var(#[trigger] c.vars[i])
    }

    /// Every variable has a name, and every constraint speaks of variables
    /// of this problem only.
    pub open spec fn wf(self) -> bool {
        &&& self.var_names.len() == self.vars.len()
        &&& forall|j: int| 0 <= j < self.cons.len() ==> self.cons_ok(#[trigger] self.cons[j])
    }

    /// `x`, one value for each variable the problem created, satisfies the
    /// problem: the values are exact rationals, every added variable lies
    /// within its bounds and is integral where it must be, and every
    /// constraint holds.
    pub open spec fn satisfies(self, x: Seq<Rational>) -> bool {
        &&& x.len() == self.vars.len()
        &&& forall|i: int| 0 <= i < x.len() ==> (#[trigger] x[i]).is_reduced()
        &&& forall|i: int|
            0 <= i < x.len() && self.vars[i].added ==> var_holds(self.vars[i], #[trigger] x[i])
        &&& forall|j: int| 0 <= j < self.cons.len() ==> cons_holds(#[trigger] self.cons[j], x)
    }

    /// The objective value of `x`: the sum of objective coefficient times
    /// value over the added variables among the first `k`.
    pub open spec fn objective(self, x: Seq<Rational>, k: int) -> (int, int)
        decreases k,
    {
        if k <= 0 {
            (0, 1)
        } else {
            let rest = self.objective(x, k - 1);
            if self.vars[k - 1].added {
                frac_add(rest, frac_mul(frac(self.vars[k - 1].obj), frac(x[k - 1])))
            } else {
                rest
            }
        }
    }
}

/// A rational as a numerator and a positive denominator.
pub open spec fn frac(r: Rational) -> (int, int) {
    (r.num(), r.den())
}

/// The sum of two fractions.
pub open spec fn frac_add(p: (int, int), q: (int, int)) -> (int, int) {
    (p.0 * q.1 + q.0 * p.1, p.1 * q.1)
}

/// The product of two fractions.
pub open spec fn frac_mul(p: (int, int), q: (int, int)) -> (int, int) {
    (p.0 * q.0, p.1 * q.1)
}

/// `p <= q`, for fractions with positive denominators.
pub open spec fn frac_le(p: (int, int), q: (int, int)) -> bool {
    p.0 * q.1 <= q.0 * p.1
}

/// The sum of the first `k` terms `vals[i] * x[vars[i]]` of a constraint.
pub open spec fn activity(c: LinearModel, x: Seq<Rational>, k: int) -> (int, int)
    decreases k,
{
    if k <= 0 {
        (0, 1)
    } else {
        frac_add(
            activity(c, x, k - 1),
            frac_mul(frac(c.vals[k - 1]), frac(x[c.vars[k - 1].id()])),
        )
    }
}

/// The constraint holds at `x`: its sum is at least `lhs` and at most `rhs`
/// where these are present.
pub open spec fn cons_holds(c: LinearModel, x: Seq<Rational>) -> bool {
    let a = activity(c, x, c.vals.len() as int);
    &&& (c.lhs matches Some(l) ==> frac_le(frac(l), a))
    &&& (c.rhs matches Some(r) ==> frac_le(a, frac(r)))
}

/// The value `v` respects the bounds and the domain recorded in `d`.
pub open spec fn var_holds(d: VarData, v: Rational) -> bool {
    &&& (d.lb matches Some(l) ==> frac_le(frac(l), frac(v)))
    &&& (d.ub matches Some(u) ==> frac_le(frac(v), frac(u)))
    &&& (d.vartype == VarType::Integer ==> v.den() == 1)
}

/// Adding a constraint keeps exactly the assignments that satisfied the
/// problem and satisfy the new constraint, and leaves the objective as it
/// was.
pub proof fn lemma_add_constraint_narrows(m: ProblemModel, c: LinearModel, x: Seq<Rational>)
    ensures
        (ProblemModel { cons: m.cons.push(c), ..m }).satisfies(x) <==> (m.satisfies(x)
            && cons_holds(c, x)),
        forall|k: int|
            #[trigger] (ProblemModel { cons: m.cons.push(c), ..m }).objective(x, k)
                == m.objective(x, k),
{
    let m2 = ProblemModel { cons: m.cons.push(c), ..m };
    if m2.satisfies(x) {
        assert(cons_holds(m2.cons[m.cons.len() as int], x));
        assert forall|j: int| 0 <= j < m.cons.len() implies cons_holds(
            #[trigger] m.cons[j],
            x,
        ) by {
            assert(cons_holds(m2.cons[j], x));
        }
    }
    if m.satisfies(x) && cons_holds(c, x) {
        assert forall|j: int| 0 <= j < m2.cons.len() implies cons_holds(
            #[trigger] m2.cons[j],
            x,
        ) by {
            if j < m.cons.len() {
                assert(cons_holds(m.cons[j], x));
            }
        }
    }
    assert forall|k: int| #[trigger] m2.objective(x, k) == m.objective(x, k) by {
        lemma_objective_same_vars(m2, m, x, k);
    }
}

proof fn lemma_objective_same_vars(a: ProblemModel, b: ProblemModel, x: Seq<Rational>, k: int)
    requires
        a.vars == b.vars,
    ensures
        a.objective(x, k) == b.objective(x, k),
    decreases k,
{
    if k > 0 {
        lemma_objective_same_vars(a, b, x, k - 1);
    }
}

/// A constraint with neither side constrains nothing: adding it leaves the
/// assignments that satisfy the problem, and their objective values, as
/// they were.
pub proof fn lemma_unbounded_constraint_changes_nothing(
    m: ProblemModel,
    c: LinearModel,
    x: Seq<Rational>,
)
    requires
        c.lhs is None,
        c.rhs is None,
    ensures
        (ProblemModel { cons: m.cons.push(c), ..m }).satisfies(x) <==> m.satisfies(x),
        forall|k: int|
            #[trigger] (ProblemModel { cons: m.cons.push(c), ..m }).objective(x, k)
                == m.objective(x, k),
{
    lemma_add_constraint_narrows(m, c, x);
}

/// A linear constraint as the problem stores it.
pub struct Linear {
    pub name: String,
    pub lhs: Option<Rational>,
    pub vals: Vec<Rational>,
    pub vars: Vec<Var>,
    pub rhs: Option<Rational>,
}

impl Linear {
    /// The constraint it stores.
    pub open spec fn model(self) -> LinearModel {
        LinearModel {
            name: self.name@,
            lhs: self.lhs,
            vals: self.vals@,
            vars: self.vars@,
            rhs: self.rhs,
        }
    }
}

/// What a problem holds.
struct Parts {
    name: String,
    vars: Vec<VarData>,
    var_names: Vec<String>,
    cons: Vec<Linear>,
    id: Ghost<int>,
}

impl Parts {
    closed spec fn model(self) -> ProblemModel {
        ProblemModel {
            name: self.name@,
            vars: self.vars@,
            var_names: self.var_names@.map_values(|n: String| n@),
            cons: self.cons@.map_values(|c: Linear| c.model()),
        }
    }
}

/// An exact problem under construction.
pub struct Problem {
    parts: Parts,
}

impl Problem {
    /// Every variable has a name, and every constraint speaks of variables of
    /// the problem only.
    #[verifier::type_invariant]
    closed spec fn inv(self) -> bool {
        self.parts.model().wf()
    }

    /// The mark the problem puts on the variables it creates.
    pub closed spec fn id(&self) -> int {
        self.parts.id@
    }

    /// `v` was created by this problem and has been added to it.
    pub open spec fn owns(&self, v: Var) -> bool {
        v.owner() == self.id() && self@.has_var(v)
    }

    /// `v` was created by this problem.
    pub open spec fn created(&self, v: Var) -> bool {
        v.owner() == self.id() && 0 <= v.id() < self@.vars.len()
    }

    /// Moves the contents out, leaving an empty problem with the same mark.
    fn take_parts(&mut self) -> (parts: Parts)
        ensures
            parts.model() == old(self)@,
            parts.model().wf(),
            parts.id@ == old(self).id(),
            final(self).id() == old(self).id(),
    {
        proof {
            use_type_invariant(&*self);
        }
        let empty = Parts {
            name: String::new(),
            vars: Vec::new(),
            var_names: Vec::new(),
            cons: Vec::new(),
            id: self.parts.id,
        };
        let mut taken = Problem { parts: empty };
        std::mem::swap(self, &mut taken);
        let Problem { parts } = taken;
        parts
    }

    /// The problem that holds `parts`.
    fn from_parts(parts: Parts) -> (p: Problem)
        requires
            parts.model().wf(),
        ensures
            p@ == parts.model(),
            p.id() == parts.id@,
    {
        Problem { parts }
    }
}

impl View for Problem {
    type V = ProblemModel;

    closed spec fn view(&self) -> ProblemModel {
        self.parts.model()
    }
}

/// A value handed to the solver's exact arithmetic.
#[derive(Clone, Copy, Debug, PartialEq, Eq, Structural)]
pub enum ExactValue {
    NegInfinity,
    Infinity,
    Fraction(i64, i64),
}

/// `e` is the number `r`: a fraction with a positive denominator and the
/// same value as `r`.
pub open spec fn denotes(e: ExactValue, r: Rational) -> bool {
    match e {
        ExactValue::Fraction(a, b) => b > 0 && a * r.den() == r.num() * b,
        _ => false,
    }
}

/// The exact value of `r`.
pub open spec fn exact(r: Rational) -> ExactValue {
    ExactValue::Fraction(r.num() as i64, r.den() as i64)
}

/// The left-hand side of a constraint: `lhs`, or minus infinity.
pub open spec fn lower_side(lhs: Option<Rational>) -> ExactValue {
    match lhs {
        Some(r) => exact(r),
        None => ExactValue::NegInfinity,
    }
}

/// The right-hand side of a constraint: `rhs`, or infinity.
pub open spec fn upper_side(rhs: Option<Rational>) -> ExactValue {
    match rhs {
        Some(r) => exact(r),
        None => ExactValue::Infinity,
    }
}

/// What the solver is handed to create a linear constraint: its variables,
/// and one array of exact values that holds the coefficients, then the
/// left-hand side at `lhs_slot`, then the right-hand side at `rhs_slot`.
pub struct LinearRequest {
    pub vars: Vec<Var>,
    pub values: Vec<ExactValue>,
    pub nvars: i32,
    pub nvalues: i32,
    pub lhs_slot: usize,
    pub rhs_slot: usize,
}

fn exact_value(r: Rational) -> (e: ExactValue)
    ensures
        e == exact(r),
        denotes(e, r),
{
    let (n, d) = r.fraction();
    ExactValue::Fraction(n, d)
}

impl Problem {
    /// An empty problem called `name`. Its mark is its own: no clause
    /// relates the marks of two problems, so a verified caller uses a
    /// variable only with the problem that created it.
    pub fn new(name: &str) -> (p: Problem)
        requires
            is_c_name(name@),
        ensures
            p@.name == name@,
            p@.vars.len() == 0,
            p@.cons.len() == 0,
            p@.wf(),
    {
        let parts = Parts {
            name: name.to_owned(),
            vars: Vec::new(),
            var_names: Vec::new(),
            cons: Vec::new(),
            id: Ghost(0),
        };
        proof {
            assert(parts.model().var_names.len() == 0);
        }
        Problem { parts }
    }

    /// The name of the problem.
    pub fn name(&self) -> (n: String)
        ensures
            n@ == self@.name,
    {
        self.parts.name.clone()
    }

    /// The name of the variable created at `index`.
    pub fn var_name(&self, index: usize) -> (n: String)
        requires
            index < self@.vars.len(),
        ensures
            n@ == self@.var_names[index as int],
    {
        proof {
            use_type_invariant(self);
        }
        self.parts.var_names[index].clone()
    }

    /// The number of variables created so far.
    pub fn num_vars(&self) -> (n: usize)
        ensures
            n == self@.vars.len(),
    {
        self.parts.vars.len()
    }

    /// The number of constraints added so far.
    pub fn num_constraints(&self) -> (n: usize)
        ensures
            n == self@.cons.len(),
    {
        proof {
            assert(self@.cons.len() == self.parts.cons@.len());
        }
        self.parts.cons.len()
    }

    /// What the problem records of the variable created at `index`.
    pub fn var_data(&self, index: usize) -> (d: VarData)
        requires
            index < self@.vars.len(),
        ensures
            d == self@.vars[index as int],
    {
        self.parts.vars[index]
    }

    /// The constraint added at position `j`.
    pub fn constraint(&self, j: usize) -> (c: Linear)
        requires
            j < self@.cons.len(),
        ensures
            c.model() == self@.cons[j as int],
    {
        let stored = &self.parts.cons[j];
        let c = Linear {
            name: stored.name.clone(),
            lhs: stored.lhs,
            vals: stored.vals.clone(),
            vars: stored.vars.clone(),
            rhs: stored.rhs,
        };
        proof {
            assert(c.vals@ == stored.vals@);
            assert(c.vars@ == stored.vars@);
        }
        c
    }

    /// Creates a fresh variable and a builder for it; the variable joins the
    /// problem when the builder is built.
    pub fn var(&mut self, name: &str) -> (b: VarBuilder)
        requires
            is_c_name(name@),
        ensures
            final(self)@.wf(),
            final(self).id() == old(self).id(),
            b.target().owner() == old(self).id(),
            final(self)@.name == old(self)@.name,
            final(self)@.vars == old(self)@.vars.push(b.data()),
            final(self)@.var_names == old(self)@.var_names.push(name@),
            final(self)@.cons == old(self)@.cons,
            b.target().id() == old(self)@.vars.len(),
            is_fresh(b.data()),
            final(self).created(b.target()),
            forall|v: Var| old(self).owns(v) ==> final(self).owns(v),
            forall|v: Var|
                old(self).created(v) ==> final(self).created(v) && v.id() < b.target().id(),
    {
        proof {
            use_type_invariant(&*self);
        }
        let index = self.parts.vars.len();
        let data = VarData {
            lb: None,
            ub: None,
            obj: Rational::from_integer(0),
            vartype: VarType::Continuous,
            added: false,
        };
        let ghost old_model = self@;
        let mut parts = self.take_parts();
        parts.vars.push(data);
        parts.var_names.push(name.to_owned());
        let id = parts.id;
        let ghost new_model = parts.model();
        proof {
            assert(new_model.cons == old_model.cons);
            assert forall|j: int| 0 <= j < new_model.cons.len() implies new_model.cons_ok(
                #[trigger] new_model.cons[j],
            ) by {
                let c = new_model.cons[j];
                assert(old_model.cons_ok(c));
                assert forall|i: int| 0 <= i < c.vars.len() implies new_model.has_var(
                    #[trigger] c.vars[i],
                ) by {
                    assert(old_model.has_var(c.vars[i]));
                }
            }
        }
        *self = Problem::from_parts(parts);
        VarBuilder { var: Var { index, problem: id }, data }
    }

    /// Adds the constraint `lhs <= sum of vals[i] * vars[i] <= rhs`, a
    /// missing side being unbounded, and hands back what the solver is to
    /// be given for it.
    pub fn add_constraint(
        &mut self,
        name: &str,
        lhs: Option<Rational>,
        vals: &[Rational],
        vars: &[Var],
        rhs: Option<Rational>,
    ) -> (req: LinearRequest)
        requires
            is_c_name(name@),
            vals.len() == vars.len(),
            vals.len() + 2 <= i32::MAX,
            forall|i: int| 0 <= i < vars.len() ==> old(self).owns(#[trigger] vars@[i]),
        ensures
            final(self)@.wf(),
            final(self).id() == old(self).id(),
            final(self)@.name == old(self)@.name,
            final(self)@.vars == old(self)@.vars,
            final(self)@.var_names == old(self)@.var_names,
            final(self)@.cons == old(self)@.cons.push(
                LinearModel { name: name@, lhs: lhs, vals: vals@, vars: vars@, rhs: rhs },
            ),
            forall|v: Var| old(self).owns(v) ==> final(self).owns(v),
            forall|v: Var| old(self).created(v) ==> final(self).created(v),
            req.vars@ == vars@,
            req.nvars == vars.len(),
            req.nvalues == vals.len() + 2,
            req.lhs_slot == vals.len(),
            req.rhs_slot == vals.len() + 1,
            req.values@.len() == vals.len() + 2,
            forall|i: int| 0 <= i < vals.len() ==> req.values@[i] == exact(#[trigger] vals@[i]),
            req.values@[vals.len() as int] == lower_side(lhs),
            req.values@[vals.len() + 1] == upper_side(rhs),
            forall|i: int|
                0 <= i < vals.len() ==> denotes(req.values@[i], #[trigger] vals@[i]),
            lhs matches Some(l) ==> denotes(req.values@[vals.len() as int], l),
            lhs is None ==> req.values@[vals.len() as int] == ExactValue::NegInfinity,
            rhs matches Some(r) ==> denotes(req.values@[vals.len() + 1], r),
            rhs is None ==> req.values@[vals.len() + 1] == ExactValue::Infinity,
    {
        proof {
            use_type_invariant(&*self);
        }
        let n = vals.len();
        let mut values: Vec<ExactValue> = Vec::new();
        let mut coefs: Vec<Rational> = Vec::new();
        let mut i: usize = 0;
        while i < n
            invariant
                n == vals.len(),
                i <= n,
                values@.len() == i,
                coefs@ == vals@.subrange(0, i as int),
                forall|k: int| 0 <= k < i ==> values@[k] == exact(#[trigger] vals@[k]),
                forall|k: int| 0 <= k < i ==> denotes(values@[k], #[trigger] vals@[k]),
            decreases n - i,
        {
            values.push(exact_value(vals[i]));
            coefs.push(vals[i]);
            i = i + 1;
        }
        let low = match lhs {
            Some(r) => exact_value(r),
            None => ExactValue::NegInfinity,
        };
        let high = match rhs {
            Some(r) => exact_value(r),
            None => ExactValue::Infinity,
        };
        values.push(low);
        values.push(high);
        let mut cvars: Vec<Var> = Vec::new();
        let mut j: usize = 0;
        while j < n
            invariant
                n == vars.len(),
                j <= n,
                cvars@ == vars@.subrange(0, j as int),
            decreases n - j,
        {
            cvars.push(vars[j]);
            j = j + 1;
        }
        proof {
            assert(coefs@ == vals@);
            assert(cvars@ == vars@);
        }
        let req_vars = cvars.clone();
        let ghost old_model = self@;
        let mut parts = self.take_parts();
        parts.cons.push(Linear { name: name.to_owned(), lhs, vals: coefs, vars: cvars, rhs });
        let ghost new_model = parts.model();
        proof {
            assert(req_vars@ == vars@);
            assert(new_model.cons == old_model.cons.push(
                LinearModel { name: name@, lhs: lhs, vals: vals@, vars: vars@, rhs: rhs },
            ));
            assert(new_model.cons_ok(
                LinearModel { name: name@, lhs: lhs, vals: vals@, vars: vars@, rhs: rhs },
            ));
            assert forall|j: int| 0 <= j < new_model.cons.len() implies new_model.cons_ok(
                #[trigger] new_model.cons[j],
            ) by {
                if j < old_model.cons.len() {
                    assert(old_model.cons_ok(old_model.cons[j]));
                }
            }
        }
        *self = Problem::from_parts(parts);
        LinearRequest {
            vars: req_vars,
            values,
            nvars: n as i32,
            nvalues: (n + 2) as i32,
            lhs_slot: n,
            rhs_slot: n + 1,
        }
    }
}

/// The settings of a variable that has been created and not yet added.
pub struct VarBuilder {
    var: Var,
    data: VarData,
}

impl VarBuilder {
    /// The variable being built.
    pub closed spec fn target(&self) -> Var {
        self.var
    }

    /// Its settings so far.
    pub closed spec fn data(&self) -> VarData {
        self.data
    }

    /// The variable being built.
    pub fn var(&self) -> (v: Var)
        ensures
            v == self.target(),
    {
        self.var
    }

    /// Sets the lower bound.
    pub fn lb(self, lb: Rational) -> (r: VarBuilder)
        ensures
            r.target() == self.target(),
            r.data() == (VarData { lb: Some(lb), ..self.data() }),
    {
        VarBuilder { var: self.var, data: VarData { lb: Some(lb), ..self.data } }
    }

    /// Sets the upper bound.
    pub fn ub(self, ub: Rational) -> (r: VarBuilder)
        ensures
            r.target() == self.target(),
            r.data() == (VarData { ub: Some(ub), ..self.data() }),
    {
        VarBuilder { var: self.var, data: VarData { ub: Some(ub), ..self.data } }
    }

    /// Sets the objective coefficient.
    pub fn obj(self, obj: Rational) -> (r: VarBuilder)
        ensures
            r.target() == self.target(),
            r.data() == (VarData { obj: obj, ..self.data() }),
    {
        VarBuilder { var: self.var, data: VarData { obj, ..self.data } }
    }

    /// Restricts the variable to integer values.
    pub fn integer(self) -> (r: VarBuilder)
        ensures
            r.target() == self.target(),
            r.data() == (VarData { vartype: VarType::Integer, ..self.data() }),
    {
        VarBuilder { var: self.var, data: VarData { vartype: VarType::Integer, ..self.data } }
    }

    /// Adds the variable, with its settings, to the problem that created it.
    pub fn build(self, problem: &mut Problem) -> (v: Var)
        requires
            self.target().owner() == old(problem).id(),
            self.target().id() < old(problem)@.vars.len(),
        ensures
            v == self.target(),
            final(problem)@.wf(),
            final(problem).id() == old(problem).id(),
            final(problem)@.name == old(problem)@.name,
            final(problem)@.var_names == old(problem)@.var_names,
            final(problem)@.vars == old(problem)@.vars.update(
                v.id(),
                (VarData { added: true, ..self.data() }),
            ),
            final(problem)@.cons == old(problem)@.cons,
            final(problem).owns(v),
            forall|w: Var| old(problem).owns(w) ==> final(problem).owns(w),
            forall|w: Var| old(problem).created(w) ==> final(problem).created(w),
    {
        proof {
            use_type_invariant(&*problem);
        }
        let data = VarData { added: true, ..self.data };
        let ghost old_model = problem@;
        let mut parts = problem.take_parts();
        parts.vars.set(self.var.index, data);
        let ghost new_model = parts.model();
        proof {
            assert(new_model.cons == old_model.cons);
            assert forall|j: int| 0 <= j < new_model.cons.len() implies new_model.cons_ok(
                #[trigger] new_model.cons[j],
            ) by {
                let c = new_model.cons[j];
                assert(old_model.cons_ok(c));
                assert forall|i: int| 0 <= i < c.vars.len() implies new_model.has_var(
                    #[trigger] c.vars[i],
                ) by {
                    assert(old_model.has_var(c.vars[i]));
                }
            }
        }
        *problem = Problem::from_parts(parts);
        self.var
    }
}

/// The exact value handed to the solver for a rational is that very number:
/// a fraction with a positive denominator and the same value, zero
/// included.
pub proof fn lemma_exact_denotes(r: Rational)
    requires
        r.is_reduced(),
    ensures
        denotes(exact(r), r),
{
    lemma_rational_parts(r);
}

/// The sides handed to the solver are the constraint's sides: a present
/// side as that very number, a missing left-hand side as minus infinity and
/// a missing right-hand side as infinity, and nothing else as either
/// infinity.
pub proof fn lemma_sides_denote(lhs: Option<Rational>, rhs: Option<Rational>)
    requires
        lhs matches Some(l) ==> l.is_reduced(),
        rhs matches Some(r) ==> r.is_reduced(),
    ensures
        lhs matches Some(l) ==> denotes(lower_side(lhs), l),
        rhs matches Some(r) ==> denotes(upper_side(rhs), r),
        lower_side(lhs) == ExactValue::NegInfinity <==> lhs is None,
        upper_side(rhs) == ExactValue::Infinity <==> rhs is None,
{
    if let Some(l) = lhs {
        lemma_exact_denotes(l);
    }
    if let Some(r) = rhs {
        lemma_exact_denotes(r);
    }
}

/// Variables compare equal exactly when they stand at the same position;
/// every variable, and every copy of it, equals itself.
pub proof fn lemma_var_eq(x: Var, y: Var)
    ensures
        x.eq_spec(&y) <==> x.id() == y.id(),
        x.eq_spec(&x),
        x == y ==> x.eq_spec(&y),
{
}

/// Two variables handed out by separate calls of `var` on one problem
/// differ: a later call takes a position above every variable the problem
/// had created before it.
pub proof fn lemma_created_vars_differ(p: Problem, earlier: Var, later: Var)
    requires
        p.created(earlier),
        later.id() == p@.vars.len(),
    ensures
        !earlier.eq_spec(&later),
        earlier != later,
{
}

} // verus!
