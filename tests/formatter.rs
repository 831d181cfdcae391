use rulefmt::{Ast, Formatter, Statement};

fn b(s: &str) -> Vec<u8> {
    s.as_bytes().to_vec()
}

fn fmt(ast: Ast) -> String {
    String::from_utf8(Formatter::new().format(ast)).unwrap()
}

fn set(identifier: &str, value: &str) -> Ast {
    Ast::Statement(Statement::SetVar { identifier: b(identifier), value: b(value) })
}

fn pool(identifier: &str) -> Ast {
    Ast::Statement(Statement::Pool { identifier: b(identifier) })
}

#[test]
fn procedure_with_one_statement() {
    let ast = Ast::Procedure {
        name: b("p"),
        parameters: vec![b("a")],
        body: Box::new(Ast::Block(vec![set("x", "1")])),
    };
    assert_eq!(fmt(ast), "proc p { a } {\n    set x 1\n}\n");
}

#[test]
fn procedure_without_parameters() {
    let ast = Ast::Procedure { name: b("main"), parameters: vec![], body: Box::new(Ast::Block(vec![])) };
    assert_eq!(fmt(ast), "proc main { } {\n}\n");
}

#[test]
fn procedure_with_two_parameters() {
    let ast = Ast::Procedure {
        name: b("q"),
        parameters: vec![b("a"), b("b")],
        body: Box::new(pool("x")),
    };
    assert_eq!(fmt(ast), "proc q { a b } {\n    pool x\n}\n");
}

#[test]
fn switch_with_fallthrough() {
    let ast = Ast::Switch {
        condition: b("$x"),
        value_block_or_fallthrough_vec: vec![
            (b("1"), None),
            (b("2"), Some(Ast::Block(vec![pool("p1")]))),
        ],
    };
    assert_eq!(fmt(ast), "switch $x {\n    1 -\n    2 {\n        pool p1\n    }\n}\n");
}

#[test]
fn switch_keeps_case_order() {
    let ast = Ast::Switch {
        condition: b("$y"),
        value_block_or_fallthrough_vec: vec![
            (b("b"), Some(pool("p2"))),
            (b("a"), None),
            (b("c"), Some(pool("p1"))),
        ],
    };
    assert_eq!(
        fmt(ast),
        "switch $y {\n    b {\n        pool p2\n    }\n    a -\n    c {\n        pool p1\n    }\n}\n"
    );
}

#[test]
fn empty_switch() {
    let ast = Ast::Switch { condition: b("$z"), value_block_or_fallthrough_vec: vec![] };
    assert_eq!(fmt(ast), "switch $z {\n}\n");
}

#[test]
fn blank_lines_are_capped_at_two() {
    let ast = Ast::Block(vec![
        pool("a"),
        Ast::Newline,
        Ast::Newline,
        Ast::Newline,
        Ast::Newline,
        Ast::Newline,
        pool("b"),
    ]);
    assert_eq!(fmt(ast), "pool a\n\n\npool b\n");
}

#[test]
fn single_blank_line_is_kept() {
    let ast = Ast::Block(vec![pool("a"), Ast::Newline, pool("b")]);
    assert_eq!(fmt(ast), "pool a\n\npool b\n");
}

#[test]
fn no_blank_line_renders_nothing_between() {
    let ast = Ast::Block(vec![pool("a"), pool("b")]);
    assert_eq!(fmt(ast), "pool a\npool b\n");
}

#[test]
fn blank_runs_of_each_length() {
    for n in 0..7usize {
        let ast = Ast::Block((0..n).map(|_| Ast::Newline).collect());
        assert_eq!(fmt(ast), "\n".repeat(n.min(2)));
    }
}

#[test]
fn blank_run_restarts_after_a_statement() {
    let ast = Ast::Block(vec![
        Ast::Newline,
        Ast::Newline,
        Ast::Newline,
        pool("a"),
        Ast::Newline,
        Ast::Newline,
        Ast::Newline,
    ]);
    assert_eq!(fmt(ast), "\n\npool a\n\n\n");
}

#[test]
fn if_block() {
    let ast = Ast::If { condition: b("$a == 1"), body: Box::new(set("x", "2")) };
    assert_eq!(fmt(ast), "if { $a == 1 } {\n    set x 2\n}\n");
}

#[test]
fn if_else_block() {
    let ast = Ast::IfElse {
        condition: b("$a"),
        block_if_true: Box::new(pool("t")),
        block_if_false: Box::new(pool("f")),
    };
    assert_eq!(fmt(ast), "if { $a } {\n    pool t\n}\nelse {\n    pool f\n}\n");
}

#[test]
fn if_else_if_keywords() {
    let ast = Ast::IfElseIf {
        condition_block_vec: vec![
            (b("$a"), pool("one")),
            (b("$b"), pool("two")),
            (b("$c"), pool("three")),
        ],
        block_if_false: Box::new(Ast::Block(vec![])),
    };
    assert_eq!(
        fmt(ast),
        "if { $a } {\n    pool one\n}\nelseif { $b } {\n    pool two\n}\nelseif { $c } {\n    pool three\n}\nelse {\n}\n"
    );
}

#[test]
fn if_else_if_single_pair_keeps_else() {
    let ast = Ast::IfElseIf {
        condition_block_vec: vec![(b("$a"), pool("one"))],
        block_if_false: Box::new(pool("other")),
    };
    assert_eq!(fmt(ast), "if { $a } {\n    pool one\n}\nelse {\n    pool other\n}\n");
}

#[test]
fn comment_line() {
    let ast = Ast::Block(vec![Ast::Comment(b("hello world"))]);
    assert_eq!(fmt(ast), "# hello world\n");
}

#[test]
fn nested_comment_is_indented() {
    let ast = Ast::If { condition: b("1"), body: Box::new(Ast::Comment(b("c"))) };
    assert_eq!(fmt(ast), "if { 1 } {\n    # c\n}\n");
}

#[test]
fn every_statement_kind() {
    let ast = Ast::Block(vec![
        set("i", "v"),
        Ast::Statement(Statement::Log { bucket: b("local0"), value: b("\"hi\"") }),
        Ast::Statement(Statement::Snat { ip_address: b("10.0.0.1"), port: b("80") }),
        Ast::Statement(Statement::Node { ip_address: b("10.0.0.2"), port: b("443") }),
        pool("web"),
        Ast::Statement(Statement::SnatPool { identifier: b("sp") }),
        Ast::Statement(Statement::Return { value: Some(b("1")) }),
        Ast::Statement(Statement::Return { value: None }),
    ]);
    assert_eq!(
        fmt(ast),
        "set i v\nlog local0 \"hi\"\nsnat 10.0.0.1 80\nnode 10.0.0.2 443\npool web\nsnatpool sp\nreturn 1\nreturn\n"
    );
}

#[test]
fn deep_nesting_indents_each_level() {
    let ast = Ast::Procedure {
        name: b("p"),
        parameters: vec![],
        body: Box::new(Ast::If {
            condition: b("c"),
            body: Box::new(Ast::Switch {
                condition: b("$v"),
                value_block_or_fallthrough_vec: vec![(b("k"), Some(pool("z")))],
            }),
        }),
    };
    assert_eq!(
        fmt(ast),
        "proc p { } {\n    if { c } {\n        switch $v {\n            k {\n                pool z\n            }\n        }\n    }\n}\n"
    );
}

#[test]
fn formatting_twice_gives_the_same_bytes() {
    let make = || {
        Ast::Block(vec![
            Ast::Comment(b("x")),
            Ast::Newline,
            Ast::If { condition: b("$a"), body: Box::new(set("y", "z")) },
        ])
    };
    let first = Formatter::new().format(make());
    let second = Formatter::new().format(make());
    assert_eq!(first, second);
    assert_eq!(first, b("# x\n\nif { $a } {\n    set y z\n}\n"));
}

#[test]
fn empty_block_renders_nothing() {
    assert_eq!(fmt(Ast::Block(vec![])), "");
}

#[test]
fn fits_within_rejects_empty_if_else_if() {
    let ast = Ast::IfElseIf { condition_block_vec: vec![], block_if_false: Box::new(Ast::Block(vec![])) };
    assert!(!ast.fits_within(usize::MAX));
}

#[test]
fn fits_within_counts_nesting() {
    let ast = Ast::Switch {
        condition: b("$v"),
        value_block_or_fallthrough_vec: vec![(b("k"), Some(pool("z")))],
    };
    assert!(ast.fits_within(2));
    assert!(!ast.fits_within(1));
    assert!(Ast::Newline.fits_within(0));
    assert!(!Ast::If { condition: b("c"), body: Box::new(pool("p")) }.fits_within(0));
}

#[test]
fn nested_block_restarts_the_blank_run() {
    let ast = Ast::Block(vec![Ast::Newline, Ast::Newline, Ast::Block(vec![Ast::Newline])]);
    assert_eq!(fmt(ast), "\n\n\n");
}
