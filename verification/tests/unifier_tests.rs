use dne::compiling::unifier::{Term, Unify};

fn var(name: &str) -> Term {
    Term::Var(name.to_string())
}

fn data(name: &str, args: Vec<Term>) -> Term {
    Term::Data(name.to_string(), args)
}

#[test]
fn should_link_free_vars() {
    
}

#[test]
fn should_unify_linked_free_vars_with_one_term() {
    let x = var("x");
    let y = var("y");
    let a = data("a", vec![]);
    let b = data("b", vec![]);
    let mut u = Unify::new();
    assert!(u.unify(&x, &y));
    assert!(u.unify(&y, &a));
    assert!(u.unify(&x, &a));
    assert!(!u.unify(&x, &b));
}

#[test]
fn should_refuse_constructors_of_different_names() {
    let a = data("a", vec![]);
    let b = data("b", vec![]);
    let mut u = Unify::new();
    assert!(!u.unify(&a, &b));
    assert!(u.unify(&a, &a));
}

#[test]
fn should_unify_arguments_pairwise() {
    let left = data("pair", vec![var("x"), data("b", vec![])]);
    let right = data("pair", vec![data("a", vec![]), var("y")]);
    let a = data("a", vec![]);
    let b = data("b", vec![]);
    let x = var("x");
    let y = var("y");
    let mut u = Unify::new();
    assert!(u.unify(&left, &right));
    assert!(u.unify(&x, &a));
    assert!(u.unify(&y, &b));
    assert!(!u.unify(&x, &b));
}

#[test]
fn should_stop_at_the_first_pair_that_fails() {
    let left = data("f", vec![data("a", vec![]), var("x")]);
    let right = data("f", vec![data("b", vec![]), data("c", vec![])]);
    let x = var("x");
    let d = data("d", vec![]);
    let mut u = Unify::new();
    assert!(!u.unify(&left, &right));
    assert!(u.unify(&x, &d));
}

#[test]
fn should_unify_a_variable_with_itself() {
    let x = var("x");
    let a = data("a", vec![]);
    let mut u = Unify::new();
    assert!(u.unify(&x, &x));
    assert!(u.unify(&x, &a));
}

#[test]
fn should_ignore_arguments_beyond_the_shorter_list() {
    let one = data("f", vec![data("a", vec![])]);
    let two = data("f", vec![data("a", vec![]), data("b", vec![])]);
    let mut u = Unify::new();
    assert!(u.unify(&one, &two));
}
