use scip_exact::problem::{ExactValue, Problem, VarType};
use scip_exact::rational::Rational;

fn whole(n: isize) -> Rational {
    Rational::from_integer(n)
}

#[test]
fn worked_example_records_its_model() {
    let mut problem = Problem::new("problem");
    let b = problem.var("b").obj(whole(-300)).integer().build(&mut problem);
    let s = problem.var("s").obj(whole(-350)).integer().build(&mut problem);

    let c1 = problem.add_constraint("c1", None, &[whole(5), whole(4)], &[b, s], Some(whole(80)));
    let c2 = problem.add_constraint("c2", None, &[whole(3), whole(4)], &[b, s], Some(whole(60)));

    assert_eq!(problem.num_vars(), 2);
    assert_eq!(problem.num_constraints(), 2);
    let bd = problem.var_data(b.index());
    assert_eq!(bd.obj, whole(-300));
    assert_eq!(bd.vartype, VarType::Integer);
    assert!(bd.added);
    assert_eq!(problem.var_data(s.index()).obj, whole(-350));

    assert_eq!(c1.values, vec![
        ExactValue::Fraction(5, 1),
        ExactValue::Fraction(4, 1),
        ExactValue::NegInfinity,
        ExactValue::Fraction(80, 1),
    ]);
    assert_eq!(c2.values, vec![
        ExactValue::Fraction(3, 1),
        ExactValue::Fraction(4, 1),
        ExactValue::NegInfinity,
        ExactValue::Fraction(60, 1),
    ]);
    assert_eq!(c1.vars.iter().map(|v| v.index()).collect::<Vec<_>>(), vec![b.index(), s.index()]);
    assert!(c1.vars == vec![b, s]);
    assert_eq!((c1.nvars, c1.nvalues, c1.lhs_slot, c1.rhs_slot), (2, 4, 2, 3));
}

#[test]
fn fresh_variable_is_unbounded_continuous_and_not_added() {
    let mut problem = Problem::new("problem");
    let builder = problem.var("v3");
    assert_eq!(builder.var().index(), 0);
    let d = problem.var_data(0);
    assert_eq!(d.lb, None);
    assert_eq!(d.ub, None);
    assert_eq!(d.obj, whole(0));
    assert_eq!(d.vartype, VarType::Continuous);
    assert!(!d.added);
    assert_eq!(problem.var("y").var().index(), 1);
    assert_eq!(problem.num_vars(), 2);
}

#[test]
fn build_records_the_settings() {
    let mut problem = Problem::new("problem");
    let v = problem
        .var("x")
        .lb(Rational::new(-1, 2))
        .ub(whole(10))
        .obj(Rational::new(3, 4))
        .build(&mut problem);
    let d = problem.var_data(v.index());
    assert_eq!(d.lb, Some(Rational::new(-1, 2)));
    assert_eq!(d.ub, Some(whole(10)));
    assert_eq!(d.obj, Rational::new(3, 4));
    assert_eq!(d.vartype, VarType::Continuous);
    assert!(d.added);
}

#[test]
fn later_settings_replace_earlier_ones() {
    let mut problem = Problem::new("problem");
    let v = problem.var("v7").lb(whole(1)).lb(whole(2)).obj(whole(5)).obj(whole(6)).build(&mut problem);
    let d = problem.var_data(v.index());
    assert_eq!(d.lb, Some(whole(2)));
    assert_eq!(d.obj, whole(6));
}

#[test]
fn unbuilt_variable_stays_out_of_the_problem() {
    let mut problem = Problem::new("problem");
    let _unused = problem.var("v8").lb(whole(3));
    let v = problem.var("v9").build(&mut problem);
    assert_eq!(v.index(), 1);
    assert!(!problem.var_data(0).added);
    assert_eq!(problem.var_data(0).lb, None);
    assert!(problem.var_data(1).added);
}

#[test]
fn constraint_sides_fill_the_last_two_slots() {
    let mut problem = Problem::new("problem");
    let x = problem.var("v10").build(&mut problem);
    let y = problem.var("v11").build(&mut problem);
    let z = problem.var("v12").build(&mut problem);
    let req = problem.add_constraint("k", Some(Rational::new(-7, 3)),
        &[Rational::new(1, 2), whole(-1), Rational::new(6, 4)],
        &[x, y, z],
        None,
    );
    assert_eq!(req.values, vec![
        ExactValue::Fraction(1, 2),
        ExactValue::Fraction(-1, 1),
        ExactValue::Fraction(3, 2),
        ExactValue::Fraction(-7, 3),
        ExactValue::Infinity,
    ]);
    assert_eq!((req.nvars, req.nvalues, req.lhs_slot, req.rhs_slot), (3, 5, 3, 4));
    let c = problem.constraint(0);
    assert_eq!(c.lhs, Some(Rational::new(-7, 3)));
    assert_eq!(c.rhs, None);
    assert_eq!(c.vars.iter().map(|v| v.index()).collect::<Vec<_>>(), vec![0, 1, 2]);
    assert!(c.vars == vec![x, y, z]);
    assert_eq!(c.vals, vec![Rational::new(1, 2), whole(-1), Rational::new(3, 2)]);
}

#[test]
fn empty_constraint_holds_only_its_sides() {
    let mut problem = Problem::new("problem");
    let req = problem.add_constraint("empty", None, &[], &[], None);
    assert_eq!(req.values, vec![ExactValue::NegInfinity, ExactValue::Infinity]);
    assert_eq!((req.nvars, req.nvalues, req.lhs_slot, req.rhs_slot), (0, 2, 0, 1));
    assert_eq!(problem.num_constraints(), 1);
}

#[test]
fn constraints_keep_their_order() {
    let mut problem = Problem::new("problem");
    let x = problem.var("v13").build(&mut problem);
    problem.add_constraint("k", Some(whole(1)), &[whole(1)], &[x], None);
    problem.add_constraint("k", None, &[whole(2)], &[x], Some(whole(9)));
    assert_eq!(problem.constraint(0).lhs, Some(whole(1)));
    assert_eq!(problem.constraint(1).rhs, Some(whole(9)));
    assert_eq!(problem.constraint(1).vals, vec![whole(2)]);
}

#[test]
fn variables_are_ordered_by_creation() {
    let mut problem = Problem::new("problem");
    let a = problem.var("v14").build(&mut problem);
    let b = problem.var("v15").build(&mut problem);
    assert!(a.index() < b.index());
    assert!(a != b);
    assert!(a == a);
}

#[test]
fn names_are_recorded() {
    let mut problem = Problem::new("plan");
    let b = problem.var("b").build(&mut problem);
    let _unbuilt = problem.var("spare");
    problem.add_constraint("cap", None, &[whole(1)], &[b], Some(whole(4)));
    assert_eq!(problem.name(), "plan");
    assert_eq!(problem.var_name(0), "b");
    assert_eq!(problem.var_name(1), "spare");
    assert_eq!(problem.constraint(0).name, "cap");
}
