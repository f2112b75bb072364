use rusptlib::{
    exec, exec_prog, exec_rec, exec_ref, lisp_null, make_atom, make_bool, make_list, make_num,
    make_quoted, parse, print_cell, run_code, same_cells, Environment, LispCell, LispError,
    LispFunc, LispFuncExecutor, LispFuncType, LispList, NativeOp, Number, Runtime, Scope,
    DEFAULT_DEPTH,
};

fn eval_in(rt: &mut Runtime, text: &str) -> Result<LispCell, LispError> {
    let program = parse(text.to_string(), rt)?;
    assert!(program.entry.is_some());
    exec_prog(rt, program)
}

fn eval(text: &str) -> Result<String, LispError> {
    let mut rt = Runtime::new();
    let value = eval_in(&mut rt, text)?;
    Ok(print_cell(&value, &rt))
}

fn value(text: &str) -> String {
    eval(text).expect("the program should evaluate")
}

fn error(text: &str) -> LispError {
    eval(text).expect_err("the program should fail")
}

fn nested(open: &str, inner: &str, close: &str, levels: usize) -> String {
    let mut text = String::new();
    for _ in 0..levels {
        text.push_str(open);
    }
    text.push_str(inner);
    for _ in 0..levels {
        text.push_str(close);
    }
    text
}

#[test]
fn sums_of_sums() {
    assert_eq!(value("(+ 1 2)"), "3");
    assert_eq!(value("(+ (+ 1 2) (+ 2 2))"), "7");
}

#[test]
fn arithmetic_folds_from_the_left() {
    assert_eq!(value("(* (+ (* 1 2 3) (- 2 2 -5) (+ 1 1 2 3) (/ 1 2)) (+ 1 5 6))"), "222");
    assert_eq!(value("(- 2 2 -5)"), "5");
    assert_eq!(value("(- 10 1 2 3)"), "4");
    assert_eq!(value("(/ 1 2)"), "0.5");
    assert_eq!(value("(/ 100 2 5)"), "10");
    assert_eq!(value("(/ 1 3)"), "0.333333");
    assert_eq!(value("(* 1.5 1.5)"), "2.25");
    assert_eq!(value("(+)"), "0");
    assert_eq!(value("(*)"), "1");
    assert_eq!(value("(- 7)"), "7");
    assert_eq!(value("(/ 7)"), "7");
    assert_eq!(value("(+ 0.1 0.2)"), "0.3");
}

#[test]
fn pushes_are_seen_through_the_binding() {
    assert_eq!(value("(do (def x (list 1 2 3)) (push 4 x) (push 5 x) x)"), "(1 2 3 4 5)");
    let mut rt = Runtime::new();
    let result = eval_in(&mut rt, "(do (def x (list 1 2 3)) (push 4 x) (push 5 x) x)").unwrap();
    let expected = make_list(
        &mut rt,
        vec![make_num(1), make_num(2), make_num(3), make_num(4), make_num(5)],
    );
    assert_eq!(same_cells(&rt, &result, &expected, 10), Ok(true));
    let bound = rt.lookup(Scope::Root, &"x".to_string()).unwrap();
    assert_eq!(same_cells(&rt, &bound, &expected, 10), Ok(true));
}

#[test]
fn a_push_onto_a_sublist_is_seen_in_the_outer_list() {
    assert_eq!(
        value("(do (def x (list (list 3 4 5) 1 2)) (push 6 (car x)) x)"),
        "((3 4 5 6) 1 2)"
    );
}

#[test]
fn a_push_onto_the_rest_of_a_list_is_seen_in_the_list() {
    assert_eq!(value("(do (def x (list 1 2)) (push 3 (cdr x)) x)"), "(1 2 3)");
    assert_eq!(value("(do (def x (list 1 2)) (def y (cdr x)) (push 3 x) y)"), "(2 3)");
}

#[test]
fn push_returns_the_list_it_was_given() {
    assert_eq!(value("(push 2 (list 1))"), "(1 2)");
    assert_eq!(value("(do (def x (list)) (push 1 x) (push 2 x) x)"), "(1 2)");
    assert_eq!(value("(do (def x '(a b)) (push 'c x) x)"), "(a b c)");
}

#[test]
fn a_list_may_hold_itself() {
    let mut rt = Runtime::with_depth(6);
    let result = eval_in(&mut rt, "(do (def x (list 1)) (push x x) x)").unwrap();
    assert_eq!(print_cell(&result, &rt), "(1 (1 (1 (1 (1 (1 ...))))))");
    assert_eq!(same_cells(&rt, &result, &result, 6), Err(LispError::DepthExceeded));
}

#[test]
fn named_functions() {
    assert_eq!(value("(do (defn foo () (+ 1 1)) (foo))"), "2");
    assert_eq!(value("(do (defn add3 (a b c) (+ a b c)) (add3 1 2 3))"), "6");
    assert_eq!(value("(defn foo (x) x)"), "#foo");
    assert_eq!(value("(do (defn foo (x) x) foo)"), "#foo");
}

#[test]
fn a_named_function_runs_in_the_scope_of_its_caller() {
    assert_eq!(value("(do (defn g () z) (def z 5) (g))"), "5");
    assert_eq!(value("(do (defn foo (a) a) (foo 7) a)"), "7");
    assert_eq!(value("(do (def x 1) (defn set (x) x) (set 2) x)"), "2");
    assert_eq!(
        value("(do (defn inner () y) (def f (lambda (y) (inner))) (f 9))"),
        "9"
    );
}

#[test]
fn anonymous_functions() {
    assert_eq!(value("(do ((lambda (x) (* x 3)) 3))"), "9");
    assert_eq!(value("((lambda (x y) (- x y)) 5 3)"), "2");
    assert_eq!(value("(lambda (x) x)"), "#lambda");
    assert_eq!(value("((lambda () 5))"), "5");
    assert_eq!(value("((lambda (x) 'x) 1)"), "x");
}

#[test]
fn a_closure_sees_the_scope_it_captured() {
    assert_eq!(value("(do (def x 3) (def f (lambda (y) (* x y))) (f 3))"), "9");
    assert_eq!(value("(do (def x 3) (def f (lambda (y) (* x y))) (def x 10) (f 3))"), "9");
    assert_eq!(error("(do (def f (lambda () y)) (def y 1) (f))"), LispError::UnboundSymbol);
    assert_eq!(value("(do (def x 3) (def f (lambda (x) (* x 2))) (+ (f 12) x))"), "27");
    assert_eq!(value("(do (def f (lambda () (def n 1))) (f) (def n 5) n)"), "5");
}

#[test]
fn a_closure_keeps_its_scope_between_calls() {
    assert_eq!(
        value("(do (def f (lambda (a) (def kept a))) (def g f) (f 4) (def h (lambda () 0)) 1)"),
        "1"
    );
    assert_eq!(
        value("(do (def l (list)) (def f (lambda (v) (push v l))) (f 1) (f 2) l)"),
        "(1 2)"
    );
}

#[test]
fn undefined_symbols_are_unbound() {
    assert_eq!(error("x"), LispError::UnboundSymbol);
    assert_eq!(error("(+ 1 y)"), LispError::UnboundSymbol);
    assert_eq!(error("(nope 1)"), LispError::UnboundSymbol);
    let rt = Runtime::new();
    assert!(rt.lookup(Scope::Root, &"x".to_string()).is_none());
    assert!(rt.lookup(Scope::Captured(0), &"+".to_string()).is_none());
    assert!(rt.lookup(Scope::Root, &"+".to_string()).is_some());
}

#[test]
fn car_and_cdr_of_an_empty_list_are_empty_lists() {
    assert_eq!(value("(car (list))"), "()");
    assert_eq!(value("(cdr (list))"), "()");
    assert_eq!(value("(car '())"), "()");
    assert_eq!(value("(cdr (list 1))"), "()");
    assert_eq!(value("(do (def x (list)) (push 1 (car x)) x)"), "()");
    assert_eq!(value("(do (def x (list 1)) (push 2 (cdr x)) x)"), "(1)");
}

#[test]
fn car_and_cdr() {
    assert_eq!(value("(car (list 1 2 3))"), "1");
    assert_eq!(value("(cdr (list 1 2 3))"), "(2 3)");
    assert_eq!(value("(car (cdr (cdr (list 1 2 3))))"), "3");
    assert_eq!(value("(cdr (cdr (cdr (list 1 2 3))))"), "()");
    assert_eq!(value("(car '((a b) c))"), "(a b)");
}

#[test]
fn self_evaluating_cells_and_quotes() {
    assert_eq!(value("42"), "42");
    assert_eq!(value("\"text\""), "\"text\"");
    assert_eq!(value("'x"), "x");
    assert_eq!(value("''x"), "'x");
    assert_eq!(value("'(+ 1 2)"), "(+ 1 2)");
    assert_eq!(value("(eq 1 1)"), "true");
    let mut rt = Runtime::new();
    assert!(matches!(exec(&mut rt, make_bool(false)), Ok(LispCell::Bool(false))));
    assert!(matches!(exec_ref(&mut rt, &make_num(2)), Ok(LispCell::Number(Number { units: 2_000_000 }))));
    assert!(matches!(exec(&mut rt, make_quoted(make_atom("q"))), Ok(LispCell::Atom(ref a)) if a == "q"));
}

#[test]
fn definitions() {
    assert_eq!(value("(def x 5)"), "x");
    assert_eq!(value("(do (def x 5) x)"), "5");
    assert_eq!(value("(do (def x 5) (def x (+ x 1)) x)"), "6");
    assert_eq!(value("(do (def x 1 2 3) x)"), "1");
    assert_eq!(value("(do (def + -) (+ 5 3))"), "2");
}

#[test]
fn sequences_give_their_last_value() {
    assert_eq!(value("(do 1 2 3)"), "3");
    assert_eq!(value("(do (def x (+ 2 2)) (+ x 5))"), "9");
    assert_eq!(value("(do 1)"), "1");
}

#[test]
fn only_the_chosen_branch_is_evaluated() {
    assert_eq!(value("(if (eq 1 1) 1 0)"), "1");
    assert_eq!(value("(if (eq 1 2) 1 0)"), "0");
    assert_eq!(value("(if (eq 1 1) 'yes undefined)"), "yes");
    assert_eq!(value("(if (eq 1 2) undefined 'no)"), "no");
    assert_eq!(value("(do (def l (list)) (if (eq 1 1) (push 1 l) (push 2 l)) l)"), "(1)");
}

#[test]
fn equality_is_structural() {
    assert_eq!(value("(eq 1 1)"), "true");
    assert_eq!(value("(eq 1 2)"), "false");
    assert_eq!(value("(eq 0.5 (/ 1 2))"), "true");
    assert_eq!(value("(eq 'a 'a)"), "true");
    assert_eq!(value("(eq 'a 'b)"), "false");
    assert_eq!(value("(eq 'a 1)"), "false");
    assert_eq!(value("(eq \"a\" 'a)"), "false");
    assert_eq!(value("(eq \"a\" \"a\")"), "true");
    assert_eq!(value("(eq ''a ''a)"), "true");
    assert_eq!(value("(eq ''a 'a)"), "false");
    assert_eq!(value("(eq (list 1 2) (list 1 2))"), "true");
    assert_eq!(value("(eq (list 1 2) (list 1 3))"), "false");
    assert_eq!(value("(eq (list 1 2) (list 1 2 3))"), "false");
    assert_eq!(value("(eq (list) (list))"), "true");
    assert_eq!(value("(eq (list (list 1) 2) '((1) 2))"), "true");
    assert_eq!(value("(eq (eq 1 1) (eq 2 2))"), "true");
    assert_eq!(value("(eq (eq 1 1) (eq 1 2))"), "false");
}

#[test]
fn functions_are_equal_by_name() {
    assert_eq!(value("(eq (lambda () 1) (lambda (x) 2))"), "true");
    assert_eq!(value("(eq + +)"), "true");
    assert_eq!(value("(eq + -)"), "false");
    assert_eq!(value("(do (defn f () 1) (def g f) (defn f () 2) (eq f g))"), "true");
}

#[test]
fn every_error_has_its_cause() {
    assert_eq!(error("(+ 1 'a)"), LispError::NonNumericOperand);
    assert_eq!(error("(- (list))"), LispError::NonNumericOperand);
    assert_eq!(error("(* 1 \"2\")"), LispError::NonNumericOperand);
    assert_eq!(error("(push 1 2)"), LispError::NotAList);
    assert_eq!(error("(car 1)"), LispError::NotAList);
    assert_eq!(error("(cdr 'a)"), LispError::NotAList);
    assert_eq!(error("(defn f 1 2)"), LispError::NotAList);
    assert_eq!(error("(lambda x x)"), LispError::NotAList);
    assert_eq!(error("(do)"), LispError::ArityMismatch);
    assert_eq!(error("(-)"), LispError::ArityMismatch);
    assert_eq!(error("(/)"), LispError::ArityMismatch);
    assert_eq!(error("(car)"), LispError::ArityMismatch);
    assert_eq!(error("(cdr (list) (list))"), LispError::ArityMismatch);
    assert_eq!(error("(push 1)"), LispError::ArityMismatch);
    assert_eq!(error("(eq 1)"), LispError::ArityMismatch);
    assert_eq!(error("(if (eq 1 1) 2)"), LispError::ArityMismatch);
    assert_eq!(error("(def)"), LispError::ArityMismatch);
    assert_eq!(error("(def x)"), LispError::ArityMismatch);
    assert_eq!(error("(defn f (x))"), LispError::ArityMismatch);
    assert_eq!(error("(lambda (x))"), LispError::ArityMismatch);
    assert_eq!(error("((lambda (x) x))"), LispError::ArityMismatch);
    assert_eq!(error("((lambda () 1) 2)"), LispError::ArityMismatch);
    assert_eq!(error("(if 1 2 3)"), LispError::TypeMismatch);
    assert_eq!(error("(def 1 2)"), LispError::TypeMismatch);
    assert_eq!(error("(def 1)"), LispError::TypeMismatch);
    assert_eq!(error("(defn 1 () 2)"), LispError::TypeMismatch);
    assert_eq!(error("(defn f (1) 2)"), LispError::TypeMismatch);
    assert_eq!(error("(lambda (x 2) x)"), LispError::TypeMismatch);
    assert_eq!(error("()"), LispError::TypeMismatch);
    assert_eq!(error("(())"), LispError::TypeMismatch);
    assert_eq!(error("(1 2)"), LispError::NotCallable);
    assert_eq!(error("('a 2)"), LispError::NotCallable);
    assert_eq!(error("((list 1) 2)"), LispError::NotCallable);
    assert_eq!(error("(/ 1 0)"), LispError::DivisionByZero);
    assert_eq!(error("(/ 1 2 0)"), LispError::DivisionByZero);
    assert_eq!(error("(* 9000000000 9000000000)"), LispError::NumericOverflow);
    assert_eq!(error("(+ 9223372036854 1)"), LispError::NumericOverflow);
}

#[test]
fn the_first_error_ends_the_evaluation() {
    assert_eq!(error("(+ (/ 1 0) undefined)"), LispError::DivisionByZero);
    assert_eq!(error("(+ undefined (/ 1 0))"), LispError::UnboundSymbol);
    assert_eq!(error("(undefined (/ 1 0))"), LispError::UnboundSymbol);
    assert_eq!(error("(+ 9223372036854 1 'a)"), LispError::NonNumericOperand);
    let mut rt = Runtime::new();
    assert_eq!(eval_in(&mut rt, "(do (def a 1) (car 5) (def b 2))").err(), Some(LispError::NotAList));
    assert!(rt.lookup(Scope::Root, &"a".to_string()).is_some());
    assert!(rt.lookup(Scope::Root, &"b".to_string()).is_none());
}

#[test]
fn a_function_cell_cannot_be_evaluated() {
    let mut rt = Runtime::new();
    let plus = rt.lookup(Scope::Root, &"+".to_string()).unwrap();
    assert_eq!(exec(&mut rt, plus).err(), Some(LispError::TypeMismatch));
}

#[test]
fn nesting_is_bounded_by_the_depth_budget() {
    let mut rt = Runtime::with_depth(0);
    assert_eq!(exec(&mut rt, make_num(1)).err(), Some(LispError::DepthExceeded));
    let mut rt = Runtime::with_depth(1);
    assert!(exec(&mut rt, make_num(1)).is_ok());
    assert_eq!(eval_in(&mut rt, "(+ 1 2)").err(), Some(LispError::DepthExceeded));
    let mut rt = Runtime::with_depth(2);
    assert!(eval_in(&mut rt, "(+ 1 2)").is_ok());
    assert_eq!(eval_in(&mut rt, "(+ 1 (+ 1 2))").err(), Some(LispError::DepthExceeded));
    let mut rt = Runtime::with_depth(3);
    assert!(eval_in(&mut rt, "(+ 1 (+ 1 2))").is_ok());
    assert_eq!(rt.max_depth(), 3);
    assert_eq!(Runtime::new().max_depth(), DEFAULT_DEPTH);
}

#[test]
fn the_default_budget_is_deep_enough_and_safe() {
    let levels = DEFAULT_DEPTH - 1;
    assert_eq!(value(&nested("(+ 1 ", "0", ")", levels)), levels.to_string());
    assert_eq!(error(&nested("(+ 1 ", "0", ")", levels + 1)), LispError::DepthExceeded);
    assert_eq!(value(&nested("(do ", "7", ")", levels)), "7");
    assert_eq!(error(&nested("(do ", "7", ")", levels + 1)), LispError::DepthExceeded);
    assert_eq!(value(&nested("(if (eq 1 1) ", "7", " 0)", levels - 1)), "7");
    assert_eq!(error(&nested("(if (eq 1 1) ", "7", " 0)", levels)), LispError::DepthExceeded);
    assert_eq!(
        value(&format!("(do (defn f () {}) (f))", nested("((lambda () ", "7", "))", 60))),
        "7"
    );
}

#[test]
fn runaway_recursion_ends_with_an_error() {
    assert_eq!(error("(do (defn f () (f)) (f))"), LispError::DepthExceeded);
    assert_eq!(error("(do (defn f (n) (+ 1 (f n))) (f 1))"), LispError::DepthExceeded);
}

#[test]
fn a_named_function_may_call_itself() {
    assert_eq!(
        value("(do (defn fact (n) (if (eq n 0) 1 (* n (fact (- n 1))))) (fact 5))"),
        "120"
    );
    // The parameter lives in the caller's scope: the inner calls leave
    // it at zero.
    assert_eq!(
        value("(do (defn fact (n) (if (eq n 0) 1 (* (fact (- n 1)) n))) (fact 5))"),
        "0"
    );
}

#[test]
fn recursion_within_the_budget() {
    assert_eq!(
        value("(do (defn down (n) (if (eq n 0) 'done (down (- n 1)))) (down 50))"),
        "done"
    );
}

#[test]
fn evaluation_in_a_captured_scope() {
    let mut rt = Runtime::new();
    eval_in(&mut rt, "(do (def x 1) (def f (lambda () x)))").unwrap();
    assert!(rt.has_scope(Scope::Captured(0)));
    assert!(!rt.has_scope(Scope::Captured(1)));
    rt.bind(Scope::Root, "x".to_string(), make_num(2));
    let captured = exec_rec(&mut rt, Scope::Captured(0), &make_atom("x"), 5).unwrap();
    let root = exec_rec(&mut rt, Scope::Root, &make_atom("x"), 5).unwrap();
    assert_eq!(print_cell(&captured, &rt), "1");
    assert_eq!(print_cell(&root, &rt), "2");
}

#[test]
fn a_closure_of_another_runtime_is_not_callable() {
    let mut first = Runtime::new();
    let f = eval_in(&mut first, "(lambda () 1)").unwrap();
    let mut second = Runtime::new();
    let call = make_list(&mut second, vec![make_quoted(f)]);
    let program = make_list(&mut second, vec![make_atom("do"), call]);
    assert_eq!(exec(&mut second, program).err(), Some(LispError::NotCallable));
}

#[test]
fn a_macro_gets_its_arguments_as_written() {
    let mut rt = Runtime::new();
    let quoting = LispFunc::new(
        "as-written".to_string(),
        LispFuncType::Macro,
        LispFuncExecutor::Native(NativeOp::List),
    );
    rt.bind(Scope::Root, "as-written".to_string(), LispCell::Func(quoting));
    let result = eval_in(&mut rt, "(as-written (+ 1 2) x)").unwrap();
    assert_eq!(print_cell(&result, &rt), "((+ 1 2) x)");
    let result = eval_in(&mut rt, "(list (+ 1 2) 4)").unwrap();
    assert_eq!(print_cell(&result, &rt), "(3 4)");
}

#[test]
fn printing() {
    assert_eq!(value("+"), "#+");
    assert_eq!(value("(list + 'a \"s\" 1.5 (eq 1 2) ''q (list))"), "(#+ a \"s\" 1.5 false 'q ())");
    let mut rt = Runtime::with_depth(1);
    let inner = make_list(&mut rt, vec![make_num(1)]);
    let outer = make_list(&mut rt, vec![inner, make_num(2)]);
    assert_eq!(print_cell(&outer, &rt), "(... 2)");
    let rt0 = Runtime::with_depth(0);
    assert_eq!(print_cell(&outer, &rt0), "...");
    assert_eq!(print_cell(&make_num(3), &rt0), "3");
}

#[test]
fn a_handle_that_points_nowhere_is_an_empty_list() {
    let mut rt = Runtime::new();
    let stray = LispList { chain: 7, start: 0 };
    assert!(!rt.has_list(stray));
    assert_eq!(rt.len(stray), 0);
    assert!(rt.items(stray).is_empty());
    assert_eq!(print_cell(&LispCell::List(stray), &rt), "()");
    assert_eq!(stray.push_back(&mut rt, make_num(1)), Err(LispError::NotAList));
    let args = make_list(
        &mut rt,
        vec![make_atom("push"), make_num(1), make_quoted(LispCell::List(stray))],
    );
    assert_eq!(exec(&mut rt, args).err(), Some(LispError::NotAList));
}

#[test]
fn lists_in_a_runtime() {
    let mut rt = Runtime::new();
    let empty = LispList::new(&mut rt);
    assert_eq!(rt.len(empty), 0);
    assert!(empty.get_value(&rt).is_none());
    let (first, rest) = LispList::split(&rt, empty);
    assert!(first.is_none() && rest.is_none());

    let one = LispList::from_value(&mut rt, make_num(1));
    assert_eq!(rt.len(one), 1);
    let (first, rest) = LispList::split(&rt, one);
    assert!(matches!(first, Some(LispCell::Number(Number { units: 1_000_000 }))));
    assert!(rest.is_none());

    let tail = one.push_back(&mut rt, make_num(2)).unwrap();
    assert_eq!(tail, LispList { chain: one.chain, start: 1 });
    let (first, rest) = LispList::split(&rt, one);
    assert!(matches!(first, Some(LispCell::Number(Number { units: 1_000_000 }))));
    assert_eq!(rest, Some(tail));
    assert!(matches!(tail.get_value(&rt), Some(LispCell::Number(Number { units: 2_000_000 }))));
    assert_eq!(LispList::to_vec(&rt, one).len(), 2);
    assert_eq!(LispList::to_vec(&rt, tail).len(), 1);
    assert_eq!(rt.rest(tail), None);

    tail.push_back(&mut rt, make_num(3)).unwrap();
    assert_eq!(print_cell(&LispCell::List(one), &rt), "(1 2 3)");
    assert_eq!(print_cell(&LispCell::List(tail), &rt), "(2 3)");
    assert_eq!(print_cell(&LispCell::List(empty), &rt), "()");

    let null = lisp_null(&mut rt);
    assert_eq!(print_cell(&null, &rt), "()");
    assert!(matches!(null, LispCell::List(l) if l.chain != empty.chain));
}

#[test]
fn scopes() {
    let mut env = Environment::new();
    for name in ["+", "-", "*", "/", "list", "def", "defn", "do", "push", "car", "cdr", "if", "eq", "lambda"] {
        let bound = env.find_sym(&name.to_string());
        assert!(matches!(bound, Some(LispCell::Func(ref f)) if f.name == name), "{}", name);
    }
    assert_eq!(env.symbols.len(), 14);
    assert!(env.find_sym(&"x".to_string()).is_none());
    env.def("x".to_string(), make_num(1));
    assert!(matches!(env.find_sym(&"x".to_string()), Some(LispCell::Number(Number { units: 1_000_000 }))));
    env.def("x".to_string(), make_bool(true));
    assert!(matches!(env.find_sym(&"x".to_string()), Some(LispCell::Bool(true))));
    assert_eq!(env.symbols.len(), 15);

    let mut child = env.new_child();
    child.def("x".to_string(), make_num(2));
    child.def("y".to_string(), make_num(3));
    assert!(matches!(env.find_sym(&"x".to_string()), Some(LispCell::Bool(true))));
    assert!(env.find_sym(&"y".to_string()).is_none());
    assert!(matches!(child.get(&"y".to_string()), Some(LispCell::Number(Number { units: 3_000_000 }))));

    let special = |name: &str| match env.find_sym(&name.to_string()) {
        Some(LispCell::Func(f)) => f.func_type == LispFuncType::SpecialForm,
        _ => false,
    };
    assert!(special("def") && special("defn") && special("do") && special("if") && special("lambda"));
    assert!(!special("+") && !special("push") && !special("eq") && !special("list"));
}

#[test]
fn requests() {
    let response = run_code("(+ 1 2)".to_string());
    assert_eq!((response.output.as_str(), response.success), ("3", true));
    let response = run_code("(do (def x (list 1 2)) (push 3 x) x)".to_string());
    assert_eq!((response.output.as_str(), response.success), ("(1 2 3)", true));
    let response = run_code("x".to_string());
    assert_eq!((response.output.as_str(), response.success), ("unbound symbol", false));
    let response = run_code(")".to_string());
    assert_eq!((response.output.as_str(), response.success), ("unmatched parenthesis", false));
    let response = run_code("  ".to_string());
    assert_eq!(
        (response.output.as_str(), response.success),
        ("No entry found for program!", false)
    );
    let response = run_code("(def x 1)".to_string());
    assert!(response.success);
    let response = run_code("x".to_string());
    assert!(!response.success);
}

#[test]
fn diagnostics() {
    assert_eq!(LispError::UnboundSymbol.message(), "unbound symbol");
    assert_eq!(LispError::NonNumericOperand.message(), "non-numeric operand");
    assert_eq!(LispError::NotAList.message(), "not a list");
    assert_eq!(LispError::ArityMismatch.message(), "wrong number of arguments");
    assert_eq!(LispError::TypeMismatch.message(), "type mismatch");
    assert_eq!(LispError::NotCallable.message(), "not callable");
    assert_eq!(LispError::UnmatchedParen.message(), "unmatched parenthesis");
    assert_eq!(LispError::DivisionByZero.message(), "division by zero");
    assert_eq!(LispError::NumericOverflow.message(), "numeric overflow");
    assert_eq!(LispError::DepthExceeded.message(), "depth exceeded");
}
