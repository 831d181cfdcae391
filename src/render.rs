//! The text that a tree stands for, stated as spec functions.
use vstd::prelude::*;

use crate::ast::{Ast, Statement};

verus! {

/// The bytes of an ASCII text, one per character.
pub open spec fn ascii(s: Seq<char>) -> Seq<u8> {
    Seq::new(s.len(), |i: int| s[i] as u8)
}

/// A line break.
pub open spec fn line_break() -> Seq<u8> {
    seq![10u8]
}

/// One indentation unit: four spaces.
pub open spec fn indent_unit() -> Seq<u8> {
    ascii("    "@)
}

/// The indentation at the start of a line at the given depth.
pub open spec fn indentation(depth: nat) -> Seq<u8>
    decreases depth,
{
    if depth == 0 {
        Seq::empty()
    } else {
        indentation((depth - 1) as nat) + indent_unit()
    }
}

/// A whole line at the given depth.
pub open spec fn line(depth: nat, content: Seq<u8>) -> Seq<u8> {
    indentation(depth) + content + line_break()
}

/// The line that closes a block opened at the given depth.
pub open spec fn closing(depth: nat) -> Seq<u8> {
    line(depth, ascii("}"@))
}

/// Each parameter name preceded by a space.
pub open spec fn parameter_text(parameters: Seq<Vec<u8>>) -> Seq<u8>
    decreases parameters.len(),
{
    if parameters.len() == 0 {
        Seq::empty()
    } else {
        parameter_text(parameters.drop_last()) + ascii(" "@) + parameters.last()@
    }
}

/// A statement's keyword and operands, separated by single spaces, with its line break.
pub open spec fn statement_text(s: Statement) -> Seq<u8> {
    let sp = ascii(" "@);
    let words = match s {
        Statement::SetVar { identifier, value } => ascii("set"@) + sp + identifier@ + sp + value@,
        Statement::Log { bucket, value } => ascii("log"@) + sp + bucket@ + sp + value@,
        Statement::Snat { ip_address, port } => ascii("snat"@) + sp + ip_address@ + sp + port@,
        Statement::Node { ip_address, port } => ascii("node"@) + sp + ip_address@ + sp + port@,
        Statement::Pool { identifier } => ascii("pool"@) + sp + identifier@,
        Statement::SnatPool { identifier } => ascii("snatpool"@) + sp + identifier@,
        Statement::Return { value: Some(value) } => ascii("return"@) + sp + value@,
        Statement::Return { value: None } => ascii("return"@),
    };
    words + line_break()
}

/// The length of the run of blank-line markers after `ast` starts, given the run before it:
/// one more after a marker, as far as a `usize` counts, and zero after any other node.
pub open spec fn next_blanks(ast: Ast, blanks: nat) -> nat {
    match ast {
        Ast::Newline => if blanks < usize::MAX {
            blanks + 1
        } else {
            blanks
        },
        _ => 0,
    }
}

/// The header line of a conditional block: its opening words, the condition, then ` } {`.
pub open spec fn condition_header(depth: nat, opening: Seq<u8>, condition: Seq<u8>) -> Seq<u8> {
    line(depth, opening + condition + ascii(" } {"@))
}

/// The text of `ast` rendered at `depth` after a run of `blanks` blank-line markers, and the
/// length of the run of markers at its end.
pub open spec fn render(ast: Ast, depth: nat, blanks: nat) -> (Seq<u8>, nat)
    decreases ast, 0nat,
{
    let b = next_blanks(ast, blanks);
    match ast {
        Ast::Block(children) => render_list(children, children.len() as nat, depth, b),
        Ast::Comment(data) => (line(depth, ascii("# "@) + data@), b),
        Ast::Procedure { name, parameters, body } => {
            let header = line(
                depth,
                ascii("proc "@) + name@ + ascii(" {"@) + parameter_text(parameters@) + ascii(
                    " } {"@,
                ),
            );
            let inner = render(*body, depth + 1, b);
            (header + inner.0 + closing(depth), inner.1)
        },
        Ast::If { condition, body } => {
            let inner = render(*body, depth + 1, b);
            (condition_header(depth, ascii("if { "@), condition@) + inner.0 + closing(depth), inner.1)
        },
        Ast::IfElse { condition, block_if_true, block_if_false } => {
            let yes = render(*block_if_true, depth + 1, b);
            let no = render(*block_if_false, depth + 1, yes.1);
            (condition_header(depth, ascii("if { "@), condition@) + yes.0 + closing(depth) + line(
                depth,
                ascii("else {"@),
            ) + no.0 + closing(depth), no.1)
        },
        Ast::IfElseIf { condition_block_vec, block_if_false } => {
            let arms = render_branches(
                condition_block_vec,
                condition_block_vec.len() as nat,
                depth,
                b,
            );
            let no = render(*block_if_false, depth + 1, arms.1);
            (arms.0 + line(depth, ascii("else {"@)) + no.0 + closing(depth), no.1)
        },
        Ast::Switch { condition, value_block_or_fallthrough_vec } => {
            let cases = render_cases(
                value_block_or_fallthrough_vec,
                value_block_or_fallthrough_vec.len() as nat,
                depth + 1,
                b,
            );
            (line(depth, ascii("switch "@) + condition@ + ascii(" {"@)) + cases.0 + closing(depth),
                cases.1)
        },
        Ast::Statement(s) => (indentation(depth) + statement_text(s), b),
        Ast::Newline => if b <= 2 {
            (line_break(), b)
        } else {
            (Seq::empty(), b)
        },
    }
}

/// The first `n` of `children` rendered one after another.
pub open spec fn render_list(children: Vec<Ast>, n: nat, depth: nat, blanks: nat) -> (
    Seq<u8>,
    nat,
)
    decreases children, n,
{
    if n == 0 || n > children.len() {
        (Seq::empty(), blanks)
    } else {
        let front = render_list(children, (n - 1) as nat, depth, blanks);
        let last = render(children[n - 1], depth, front.1);
        (front.0 + last.0, last.1)
    }
}

/// The opening words of the `i`-th branch of an `if`/`elseif` chain.
pub open spec fn branch_keyword(i: nat) -> Seq<u8> {
    if i == 0 {
        ascii("if { "@)
    } else {
        ascii("elseif { "@)
    }
}

/// The first `n` condition/body pairs of an `if`/`elseif` chain, each a closed block.
pub open spec fn render_branches(pairs: Vec<(Vec<u8>, Ast)>, n: nat, depth: nat, blanks: nat) -> (
    Seq<u8>,
    nat,
)
    decreases pairs, n,
{
    if n == 0 || n > pairs.len() {
        (Seq::empty(), blanks)
    } else {
        let front = render_branches(pairs, (n - 1) as nat, depth, blanks);
        let pair = pairs[n - 1];
        let body = render(pair.1, depth + 1, front.1);
        (front.0 + condition_header(depth, branch_keyword((n - 1) as nat), pair.0@) + body.0
            + closing(depth), body.1)
    }
}

/// The first `n` cases of a switch, at the cases' depth: a case with a body opens a block, one
/// without falls through and is marked ` -`.
pub open spec fn render_cases(
    cases: Vec<(Vec<u8>, Option<Ast>)>,
    n: nat,
    depth: nat,
    blanks: nat,
) -> (Seq<u8>, nat)
    decreases cases, n,
{
    if n == 0 || n > cases.len() {
        (Seq::empty(), blanks)
    } else {
        let front = render_cases(cases, (n - 1) as nat, depth, blanks);
        let case = cases[n - 1];
        match case.1 {
            Some(body) => {
                let inner = render(body, depth + 1, front.1);
                (front.0 + line(depth, case.0@ + ascii(" {"@)) + inner.0 + closing(depth),
                    inner.1)
            },
            None => (front.0 + line(depth, case.0@ + ascii(" -"@)), front.1),
        }
    }
}

} // verus!
