use qlafoutea::frontend::max3sat::{And, Env, Input, Or, ReduceError, Variable};
use qlafoutea::qubo::Constraints;

fn var(name: &str) -> Variable {
    Variable(name.to_string())
}

fn input(and: Vec<Or>) -> Input {
    Input { conjunction: And { and }, restrict: vec![] }
}

#[test]
fn test_to_qubo() {
    //(x_1 OR x_2 OR x_3) AND (NEG(x_1) OR x_2 OR x_3) AND (x_1 OR NEG(x_2) OR x_3) AND (NEG(x_1) OR x_2 OR NEG(x_3))
    let x_1 = var("x_1");
    let x_2 = var("x_2");
    let x_3 = var("x_3");
    let input = input(vec![
        Or {
            or: vec![x_1.positive(), x_2.positive(), x_3.positive()],
        },
        Or {
            or: vec![x_1.negative(), x_2.positive(), x_3.positive()],
        },
        Or {
            or: vec![x_1.positive(), x_2.negative(), x_3.positive()],
        },
        Or {
            or: vec![x_1.negative(), x_2.positive(), x_3.negative()],
        },
    ]);
    let constraints = input.to_qubo().unwrap();
    assert_eq!(constraints.num_nodes(), 7); // 3 SAT variables, 4 terms.
    let expected = Constraints::from_const(
        vec![
            vec![0, 0, 0, 0, 0, 0, 0],
            vec![-2, 1, 0, 0, 0, 0, 0],
            vec![2, 0, -1, 0, 0, 0, 0],
            vec![-1, -1, -1, 2, 0, 0, 0],
            vec![1, -1, -1, 0, 1, 0, 0],
            vec![-1, 1, -1, 0, 0, 1, 0],
            vec![1, -1, 1, 0, 0, 0, 0],
        ],
        vec![
            "x1".to_string(),
            "x2".to_string(),
            "x3".to_string(),
            "_0".to_string(),
            "_1".to_string(),
            "_2".to_string(),
            "_3".to_string(),
        ],
    );
    for i in 0..constraints.num_nodes() {
        for j in 0..constraints.num_nodes() {
            assert_eq!(
                constraints.at(i, j).unwrap(),
                expected.at(i, j).unwrap(),
                "({}, {})",
                i,
                j
            );
        }
    }
}

#[test]
fn reduction_is_deterministic() {
    let make = || {
        input(vec![
            Or {
                or: vec![var("b").positive(), var("a").negative(), var("c").positive()],
            },
            Or {
                or: vec![var("a").positive(), var("b").negative()],
            },
        ])
    };
    let first = make().to_qubo().unwrap();
    let second = make().to_qubo().unwrap();
    assert_eq!(first.num_nodes(), second.num_nodes());
    assert_eq!(first.names(), second.names());
    for x in 0..first.num_nodes() {
        for y in 0..first.num_nodes() {
            assert_eq!(first.at(x, y).unwrap(), second.at(x, y).unwrap());
        }
    }
}

#[test]
fn reduction_orders_variables_by_name() {
    let problem = input(vec![Or {
        or: vec![var("zeta").positive(), var("alpha").positive(), var("mid").positive()],
    }]);
    let constraints = problem.to_qubo().unwrap();
    let names = constraints.names();
    assert_eq!(names.len(), 4);
    assert_eq!(names[0], "alpha");
    assert_eq!(names[1], "mid");
    assert_eq!(names[2], "zeta");
    assert_eq!(names[3], "w_3");
}

#[test]
fn single_positive_literal() {
    let problem = input(vec![Or { or: vec![var("x").positive()] }]);
    let constraints = problem.to_qubo().unwrap();
    assert_eq!(constraints.num_nodes(), 1);
    assert_eq!(constraints.at(0, 0).unwrap(), -1);
}

#[test]
fn single_negative_literal() {
    let problem = input(vec![Or { or: vec![var("x").negative()] }]);
    let constraints = problem.to_qubo().unwrap();
    assert_eq!(constraints.at(0, 0).unwrap(), 1);
}

#[test]
fn two_literal_clause_mixed_polarity() {
    // x OR (NOT y): maximize x + (1 - y) - x (1 - y), i.e. minimize
    // y - x y once constants are dropped and x's terms cancel.
    let problem = input(vec![Or {
        or: vec![var("x").positive(), var("y").negative()],
    }]);
    let constraints = problem.to_qubo().unwrap();
    assert_eq!(constraints.num_nodes(), 2);
    assert_eq!(constraints.at(0, 0).unwrap(), 0);
    assert_eq!(constraints.at(1, 1).unwrap(), 1);
    assert_eq!(constraints.at(0, 1).unwrap(), -1);
}

#[test]
fn clause_too_large_is_rejected() {
    let problem = input(vec![Or {
        or: vec![
            var("a").positive(),
            var("b").positive(),
            var("c").positive(),
            var("d").positive(),
        ],
    }]);
    assert!(matches!(
        problem.to_qubo(),
        Err(ReduceError::MalformedClause { size: 4 })
    ));
}

#[test]
fn empty_clause_is_rejected() {
    let problem = input(vec![
        Or { or: vec![var("a").positive()] },
        Or { or: vec![] },
    ]);
    assert!(matches!(
        problem.to_qubo(),
        Err(ReduceError::MalformedClause { size: 0 })
    ));
}

#[test]
fn eval_follows_the_assignment() {
    let x = var("x");
    let y = var("y");
    let formula = And {
        and: vec![
            Or { or: vec![x.positive(), y.positive()] },
            Or { or: vec![y.negative()] },
        ],
    };
    let sat = Env(vec![(var("x"), true), (var("y"), false)]);
    assert!(formula.eval(&sat));
    let unsat = Env(vec![(var("x"), false), (var("y"), false)]);
    assert!(!formula.eval(&unsat));
}

#[test]
fn ordered_variables_sorts_and_dedups() {
    let problem = input(vec![
        Or { or: vec![var("b").positive(), var("a").positive()] },
        Or { or: vec![var("b").negative(), var("c").positive()] },
    ]);
    let ordered: Vec<String> = problem.ordered_variables().into_iter().map(|v| v.0).collect();
    assert_eq!(ordered, vec!["a".to_string(), "b".to_string(), "c".to_string()]);
}

#[test]
fn interpret_sample_checks_restrictions_and_evaluates() {
    // Variables in sorted order: a, b.
    let problem = Input {
        conjunction: And {
            and: vec![Or { or: vec![var("a").positive(), var("b").positive()] }],
        },
        restrict: vec![(var("b"), false)],
    };
    // b measured true contradicts the restriction: discarded.
    assert_eq!(problem.interpret_sample(&vec![false, true]), None);
    // b measured false, a true: the clause holds.
    assert_eq!(problem.interpret_sample(&vec![true, false]), Some(true));
    // Neither holds: the clause fails.
    assert_eq!(problem.interpret_sample(&vec![false, false]), Some(false));
}

#[test]
fn to_constraints_passes_raw_qubo_through() {
    let raw = Constraints::try_new(
        2,
        vec![-1, 0, 3, -2],
        vec!["p".to_string(), "q".to_string()],
    )
    .unwrap();
    let compiled = qlafoutea::frontend::Input::Qubo(raw).to_constraints().unwrap();
    assert_eq!(compiled.num_nodes(), 2);
    assert_eq!(compiled.at(0, 0).unwrap(), -1);
    assert_eq!(compiled.at(0, 1).unwrap(), 3);
    assert_eq!(compiled.at(1, 1).unwrap(), -2);
}

#[test]
fn empty_formula_reduces_to_an_empty_matrix() {
    let problem = input(vec![]);
    let constraints = problem.to_qubo().unwrap();
    assert_eq!(constraints.num_nodes(), 0);
    assert!(constraints.names().is_empty());
}

#[test]
fn repeated_variable_in_a_clause() {
    // x OR x is just x: the cross term lands on the diagonal and cancels
    // one of the two rewards.
    let problem = input(vec![Or {
        or: vec![var("x").positive(), var("x").positive()],
    }]);
    let constraints = problem.to_qubo().unwrap();
    assert_eq!(constraints.num_nodes(), 1);
    assert_eq!(constraints.at(0, 0).unwrap(), -1);
}
