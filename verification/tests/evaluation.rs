use rusptlib::{
    exec_prog, make_atom, make_list, make_num, make_quoted, parse, print, print_cell, same_cells,
    LispCell, LispError, LispList, LispProgram, Number, Runtime,
};

fn same(rt: &Runtime, a: &LispCell, b: &LispCell) -> bool {
    same_cells(rt, a, b, rt.max_depth()) == Ok(true)
}

fn read(rt: &mut Runtime, text: &str) -> LispProgram {
    parse(text.to_string(), rt).expect("the text should parse")
}

fn run(rt: &mut Runtime, text: &str) -> Result<LispCell, LispError> {
    let program = read(rt, text);
    assert!(program.entry.is_some());
    exec_prog(rt, program)
}

fn run_exec_test(prog_str: &str, make_expected: fn(&mut Runtime) -> LispCell) {
    let mut rt = Runtime::new();
    let result = run(&mut rt, prog_str).expect("the program should evaluate");
    let expected_result = make_expected(&mut rt);
    println!("result: {:?}", &result);
    println!("pretty result: {:?}", print_cell(&result, &rt));
    assert!(same(&rt, &result, &expected_result));
}

fn run_exec_test_literal(prog_str: &str, expected_result_str: &str) {
    let mut rt = Runtime::new();
    let result = run(&mut rt, prog_str).expect("the program should evaluate");
    let expected_result = read(&mut rt, expected_result_str).entry.unwrap();
    println!("result: {:?}", &result);
    println!("pretty result: {:?}", print_cell(&result, &rt));
    assert!(same(&rt, &result, &expected_result));
    assert_eq!(print_cell(&result, &rt), expected_result_str);
}

#[test]
fn core_create_list_from_vec() {
    let mut rt = Runtime::new();
    let list_contents = vec![make_num(1)];
    let list = LispList::from_vec(&mut rt, list_contents.clone());
    let back = LispList::to_vec(&rt, list);
    assert_eq!(back.len(), list_contents.len());
    assert!(same(&rt, &back[0], &list_contents[0]));
}

#[test]
fn lisp_list_create_list_from_vec() {
    let mut rt = Runtime::new();
    let list_contents = vec![make_num(1)];
    let list = LispList::from_vec(&mut rt, list_contents.clone());
    let back = LispList::to_vec(&rt, list);
    assert_eq!(back.len(), 1);
    assert!(matches!(back[0], LispCell::Number(Number { units: 1_000_000 })));
}

#[test]
fn basic_parsing_and_printing() {
    let program_str = "(do (print (+ 1 2) (- 1 2)) (foo bar baz (qux (+ 1 2) (blah) blah)))";
    let mut rt = Runtime::new();
    let program = read(&mut rt, program_str);

    assert_eq!(
        print(&program, &rt),
        program_str,
        "Expected program_str and printed program to be equal"
    );
}

#[test]
fn basic_parsing() {
    let program_str = "(print (concat (+ 1 2) (- 3 5)))";
    let mut rt = Runtime::new();
    let parsed_program = read(&mut rt, program_str);

    let plus = make_list(&mut rt, vec![make_atom("+"), make_num(1), make_num(2)]);
    let minus = make_list(&mut rt, vec![make_atom("-"), make_num(3), make_num(5)]);
    let concat = make_list(&mut rt, vec![make_atom("concat"), plus, minus]);
    let expected_program = LispProgram {
        text: program_str.to_string(),
        entry: Some(make_list(&mut rt, vec![make_atom("print"), concat])),
    };

    assert_eq!(parsed_program.text, expected_program.text);
    assert!(
        same(&rt, parsed_program.entry.as_ref().unwrap(), expected_program.entry.as_ref().unwrap()),
        "Expected parsed program and expected program to be equal"
    );
}

#[test]
fn basic_list_parsing() {
    let program_str = "(print (+ 1 2) '(1 (+ 1 2)) (- 3 5))";
    let mut rt = Runtime::new();
    let parsed_program = read(&mut rt, program_str);

    let plus = make_list(&mut rt, vec![make_atom("+"), make_num(1), make_num(2)]);
    let inner_plus = make_list(&mut rt, vec![make_atom("+"), make_num(1), make_num(2)]);
    let quoted = make_quoted(make_list(&mut rt, vec![make_num(1), inner_plus]));
    let minus = make_list(&mut rt, vec![make_atom("-"), make_num(3), make_num(5)]);
    let expected_program = LispProgram {
        text: program_str.to_string(),
        entry: Some(make_list(&mut rt, vec![make_atom("print"), plus, quoted, minus])),
    };

    assert_eq!(parsed_program.text, expected_program.text);
    assert!(
        same(&rt, parsed_program.entry.as_ref().unwrap(), expected_program.entry.as_ref().unwrap()),
        "Expected parsed program and expected program to be equal"
    );
}

#[test]
fn parse_empty_list() {
    let program_str = "(print ())";
    let mut rt = Runtime::new();
    let parsed_program = read(&mut rt, program_str);

    let empty = make_list(&mut rt, vec![]);
    let expected_program = LispProgram {
        text: program_str.to_string(),
        entry: Some(make_list(&mut rt, vec![make_atom("print"), empty])),
    };

    assert_eq!(parsed_program.text, expected_program.text);
    assert!(
        same(&rt, parsed_program.entry.as_ref().unwrap(), expected_program.entry.as_ref().unwrap()),
        "Expected parsed program and expected program to be equal"
    );
}

#[test]
fn basic_adding() {
    run_exec_test("(+ 1 2)", |_| make_num(3))
}

#[test]
fn basic_adding_2() {
    run_exec_test("(+ (+ 1 2) (+ 2 2))", |_| make_num(7))
}

#[test]
fn basic_math() {
    run_exec_test("(* (+ (* 1 2 3) (- 2 2 -5) (+ 1 1 2 3) (/ 1 2)) (+ 1 5 6))", |_| make_num(222));
    run_exec_test_literal("(* (+ (* 1 2 3) (- 2 2 -5) (+ 1 1 2 3) (/ 1 2)) (+ 1 5 6))", "222")
}

#[test]
fn basic_list() {
    run_exec_test("(list 1 2 3)", |rt| make_list(rt, vec![make_num(1), make_num(2), make_num(3)]))
}

#[test]
fn basic_def_and_do() {
    run_exec_test("(do (def x (+ 2 2)) (+ x 5))", |_| make_num(9))
}

#[test]
fn basic_def_and_push() {
    // `push` appends: the new cell goes to the end of the list, not
    // behind its head.
    let mut rt = Runtime::new();
    let result = run(&mut rt, "(do (def x (list 1)) (push 3 x) (push 2 x) x)").unwrap();
    assert_ne!(print_cell(&result, &rt), "(1 2 3)");
    run_exec_test_literal("(do (def x (list 1)) (push 3 x) (push 2 x) x)", "(1 3 2)");
    run_exec_test_literal("(do (def x (list 1)) (push 2 x) (push 3 x) x)", "(1 2 3)")
}

#[test]
fn car() {
    let mut rt = Runtime::new();
    let result = run(&mut rt, "(do (def x (list (list 2 4) 0 1)) (push 3 (car x)) x)").unwrap();
    assert_ne!(print_cell(&result, &rt), "((2 3 4) 0 1)");
    run_exec_test_literal("(do (def x (list (list 2 4) 0 1)) (push 3 (car x)) x)", "((2 4 3) 0 1)");
    run_exec_test_literal("(do (def x (list (list 2 3) 0 1)) (push 4 (car x)) x)", "((2 3 4) 0 1)")
}

#[test]
fn cdr() {
    let mut rt = Runtime::new();
    let result = run(&mut rt, "(do (def x (list (list 4 5 6) 1 3)) (push 2 (cdr x)) x)").unwrap();
    assert_ne!(print_cell(&result, &rt), "((4 5 6) 1 2 3)");
    run_exec_test_literal(
        "(do (def x (list (list 4 5 6) 1 3)) (push 2 (cdr x)) x)",
        "((4 5 6) 1 3 2)",
    );
    run_exec_test_literal(
        "(do (def x (list (list 4 5 6) 1 2)) (push 3 (cdr x)) x)",
        "((4 5 6) 1 2 3)",
    )
}

#[test]
fn iff() {
    run_exec_test_literal("(do (def x (if (eq 1 1) 1 0)) x)", "1")
}

#[test]
fn basic_defn() {
    run_exec_test_literal("(do (defn foo () (+ 1 1)) (foo))", "2")
}

#[test]
fn basic_defn_with_args() {
    run_exec_test_literal("(do (def x 5) (defn foo (x) (+ x 1)) (foo x))", "6")
}

#[test]
fn basic_lambda() {
    run_exec_test_literal("(do ((lambda () (* 3 2))))", "6")
}

#[test]
fn basic_lambda_with_args() {
    run_exec_test_literal("(do ((lambda (x) (* x 3)) 3))", "9")
}

#[test]
fn basic_lambda_with_args_and_def() {
    run_exec_test_literal("(do (def x (lambda (x) (* x 3))) (x 3))", "9")
}

#[test]
fn nested_env() {
    run_exec_test_literal("(do (def x 3) (def f (lambda (y) (* x y))) (f 3))", "9")
}

#[test]
fn original_var_is_unaltered_by_shadow() {
    // The parentheses of a program must balance: one more closes the `do`.
    let mut rt = Runtime::new();
    let unbalanced = "(do (def x 3) (def f (lambda (x) (* x 2))) (+ (f 12) x)";
    assert_eq!(parse(unbalanced.to_string(), &mut rt).err(), Some(LispError::UnmatchedParen));
    run_exec_test_literal("(do (def x 3) (def f (lambda (x) (* x 2))) (+ (f 12) x))", "27")
}
