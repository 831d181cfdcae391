//! Properties of the rendered text, proved over the model in `render`.
use vstd::prelude::*;

use crate::ast::Ast;
use crate::formatter::FormatterView;
use crate::render::{
    ascii, closing, condition_header, indentation, line, line_break, parameter_text, render,
    render_branches, render_cases, render_list, statement_text,
};

verus! {

/// `n` line breaks in a row.
pub open spec fn blank_lines(n: nat) -> Seq<u8> {
    Seq::new(n, |i: int| 10u8)
}

/// Whether `prefix` is where `s` starts.
pub open spec fn starts_with(s: Seq<u8>, prefix: Seq<u8>) -> bool {
    prefix.len() <= s.len() && s.subrange(0, prefix.len() as int) == prefix
}

/// Whether `suffix` is where `s` ends.
pub open spec fn ends_with(s: Seq<u8>, suffix: Seq<u8>) -> bool {
    suffix.len() <= s.len() && s.subrange(s.len() - suffix.len(), s.len() as int) == suffix
}

/// The nodes that open an indented block and close it with a `}` line.
pub open spec fn opens_block(ast: Ast) -> bool {
    ||| ast is Procedure
    ||| ast is If
    ||| ast is IfElse
    ||| ast is IfElseIf
    ||| ast is Switch
}

/// Formatting is deterministic: two formatters in the same state that format the same tree
/// return the same bytes.
pub proof fn lemma_format_deterministic(
    first: FormatterView,
    second: FormatterView,
    ast: Ast,
    r1: Seq<u8>,
    r2: Seq<u8>,
)
    requires
        first == second,
        r1 == first.output + render(ast, first.depth, first.blanks).0,
        r2 == second.output + render(ast, second.depth, second.blanks).0,
    ensures
        r1 == r2,
{
}

/// The indentation at depth `depth` is `depth` units of four spaces.
pub proof fn lemma_indentation_units(depth: nat)
    ensures
        indentation(depth).len() == 4 * depth,
        forall|i: int| 0 <= i < indentation(depth).len() ==> #[trigger] indentation(depth)[i] == 32u8,
    decreases depth,
{
    reveal_strlit("    ");
    if depth > 0 {
        lemma_indentation_units((depth - 1) as nat);
    }
}

/// The first pair of an `if`/`elseif` chain opens it with an `if` header.
proof fn lemma_branches_start(pairs: Vec<(Vec<u8>, Ast)>, n: nat, depth: nat, blanks: nat)
    requires
        1 <= n <= pairs.len(),
    ensures
        starts_with(
            render_branches(pairs, n, depth, blanks).0,
            condition_header(depth, ascii("if { "@), pairs[0].0@),
        ),
    decreases n,
{
    let h = condition_header(depth, ascii("if { "@), pairs[0].0@);
    let out = render_branches(pairs, n, depth, blanks).0;
    if n == 1 {
        assert(render_branches(pairs, 0, depth, blanks).0 == Seq::<u8>::empty());
        assert(out.subrange(0, h.len() as int) =~= h);
    } else {
        lemma_branches_start(pairs, (n - 1) as nat, depth, blanks);
        let front = render_branches(pairs, (n - 1) as nat, depth, blanks).0;
        assert(out.subrange(0, h.len() as int) =~= front.subrange(0, h.len() as int));
    }
}

/// A line starts with its indentation, followed by the first byte of its content.
proof fn lemma_line_leads(depth: nat, content: Seq<u8>)
    requires
        content.len() > 0,
    ensures
        starts_with(line(depth, content), indentation(depth)),
        line(depth, content).len() > indentation(depth).len(),
        line(depth, content)[indentation(depth).len() as int] == content[0],
{
    let ind = indentation(depth);
    assert(line(depth, content).subrange(0, ind.len() as int) =~= ind);
}

/// Appending to a text keeps how it starts, one byte past a prefix included.
proof fn lemma_extend(x: Seq<u8>, y: Seq<u8>, p: Seq<u8>)
    requires
        starts_with(x, p),
        x.len() > p.len(),
    ensures
        starts_with(x + y, p),
        (x + y).len() > p.len(),
        (x + y)[p.len() as int] == x[p.len() as int],
{
    assert((x + y).subrange(0, p.len() as int) =~= p);
}

/// A prefix of a prefix is a prefix, with the byte after it.
proof fn lemma_prefix_trans(s: Seq<u8>, h: Seq<u8>, p: Seq<u8>)
    requires
        starts_with(s, h),
        starts_with(h, p),
        h.len() > p.len(),
    ensures
        starts_with(s, p),
        s.len() > p.len(),
        s[p.len() as int] == h[p.len() as int],
{
    assert(s.subrange(0, h.len() as int)[p.len() as int] == s[p.len() as int]);
    assert(s.subrange(0, p.len() as int) =~= h.subrange(0, p.len() as int));
}

/// A text ends with what was appended last.
proof fn lemma_ends(x: Seq<u8>, c: Seq<u8>)
    ensures
        ends_with(x + c, c),
{
    assert((x + c).subrange((x + c).len() - c.len(), (x + c).len() as int) =~= c);
}

proof fn lemma_indentation_comment(ast: Ast, depth: nat, blanks: nat)
    requires
        ast is Comment,
    ensures
        starts_with(render(ast, depth, blanks).0, indentation(depth)),
        render(ast, depth, blanks).0.len() > indentation(depth).len(),
        render(ast, depth, blanks).0[indentation(depth).len() as int] != 32u8,
        opens_block(ast) ==> ends_with(render(ast, depth, blanks).0, closing(depth)),
{
    let ind = indentation(depth);
    match ast {
        Ast::Comment(data) => {
            reveal_strlit("# ");
            lemma_line_leads(depth, ascii("# "@) + data@);
        },
        _ => {},
    }
}

proof fn lemma_indentation_procedure(ast: Ast, depth: nat, blanks: nat)
    requires
        ast is Procedure,
    ensures
        starts_with(render(ast, depth, blanks).0, indentation(depth)),
        render(ast, depth, blanks).0.len() > indentation(depth).len(),
        render(ast, depth, blanks).0[indentation(depth).len() as int] != 32u8,
        opens_block(ast) ==> ends_with(render(ast, depth, blanks).0, closing(depth)),
{
    let ind = indentation(depth);
    reveal_strlit("}");
    match ast {
        Ast::Procedure { name, parameters, body } => {
            reveal_strlit("proc ");
            let content = ascii("proc "@) + name@ + ascii(" {"@) + parameter_text(parameters@)
                + ascii(" } {"@);
            let header = line(depth, content);
            let inner = render(*body, depth + 1, 0).0;
            lemma_line_leads(depth, content);
            lemma_extend(header, inner, ind);
            lemma_extend(header + inner, closing(depth), ind);
            lemma_ends(header + inner, closing(depth));
        },
        _ => {},
    }
}

proof fn lemma_indentation_if(ast: Ast, depth: nat, blanks: nat)
    requires
        ast is If,
    ensures
        starts_with(render(ast, depth, blanks).0, indentation(depth)),
        render(ast, depth, blanks).0.len() > indentation(depth).len(),
        render(ast, depth, blanks).0[indentation(depth).len() as int] != 32u8,
        opens_block(ast) ==> ends_with(render(ast, depth, blanks).0, closing(depth)),
{
    let ind = indentation(depth);
    reveal_strlit("}");
    match ast {
        Ast::If { condition, body } => {
            reveal_strlit("if { ");
            let header = condition_header(depth, ascii("if { "@), condition@);
            let inner = render(*body, depth + 1, 0).0;
            lemma_line_leads(depth, ascii("if { "@) + condition@ + ascii(" } {"@));
            lemma_extend(header, inner, ind);
            lemma_extend(header + inner, closing(depth), ind);
            lemma_ends(header + inner, closing(depth));
        },
        _ => {},
    }
}

proof fn lemma_indentation_if_else(ast: Ast, depth: nat, blanks: nat)
    requires
        ast is IfElse,
    ensures
        starts_with(render(ast, depth, blanks).0, indentation(depth)),
        render(ast, depth, blanks).0.len() > indentation(depth).len(),
        render(ast, depth, blanks).0[indentation(depth).len() as int] != 32u8,
        opens_block(ast) ==> ends_with(render(ast, depth, blanks).0, closing(depth)),
{
    let ind = indentation(depth);
    reveal_strlit("}");
    match ast {
        Ast::IfElse { condition, block_if_true, block_if_false } => {
            reveal_strlit("if { ");
            let header = condition_header(depth, ascii("if { "@), condition@);
            let yes = render(*block_if_true, depth + 1, 0);
            let no = render(*block_if_false, depth + 1, yes.1);
            let a = header + yes.0;
            let b = a + closing(depth);
            let c = b + line(depth, ascii("else {"@));
            let d = c + no.0;
            lemma_line_leads(depth, ascii("if { "@) + condition@ + ascii(" } {"@));
            lemma_extend(header, yes.0, ind);
            lemma_extend(a, closing(depth), ind);
            lemma_extend(b, line(depth, ascii("else {"@)), ind);
            lemma_extend(c, no.0, ind);
            lemma_extend(d, closing(depth), ind);
            lemma_ends(d, closing(depth));
        },
        _ => {},
    }
}

proof fn lemma_indentation_if_else_if(ast: Ast, depth: nat, blanks: nat)
    requires
        ast is IfElseIf,
    ensures
        starts_with(render(ast, depth, blanks).0, indentation(depth)),
        render(ast, depth, blanks).0.len() > indentation(depth).len(),
        render(ast, depth, blanks).0[indentation(depth).len() as int] != 32u8,
        opens_block(ast) ==> ends_with(render(ast, depth, blanks).0, closing(depth)),
{
    let ind = indentation(depth);
    reveal_strlit("}");
    match ast {
        Ast::IfElseIf { condition_block_vec, block_if_false } => {
            reveal_strlit("if { ");
            reveal_strlit("else {");
            let n = condition_block_vec.len() as nat;
            let arms = render_branches(condition_block_vec, n, depth, 0);
            let no = render(*block_if_false, depth + 1, arms.1);
            let else_line = line(depth, ascii("else {"@));
            let b = arms.0 + else_line;
            let c = b + no.0;
            lemma_line_leads(depth, ascii("else {"@));
            if n >= 1 {
                let h = condition_header(depth, ascii("if { "@), condition_block_vec[0].0@);
                lemma_branches_start(condition_block_vec, n, depth, 0);
                lemma_line_leads(depth, ascii("if { "@) + condition_block_vec[0].0@ + ascii(" } {"@));
                lemma_prefix_trans(arms.0, h, ind);
                lemma_extend(arms.0, else_line, ind);
            } else {
                assert(render_branches(condition_block_vec, 0, depth, 0).0 == Seq::<u8>::empty());
                assert(b =~= else_line);
            }
            lemma_extend(b, no.0, ind);
            lemma_extend(c, closing(depth), ind);
            lemma_ends(c, closing(depth));
        },
        _ => {},
    }
}

proof fn lemma_indentation_switch(ast: Ast, depth: nat, blanks: nat)
    requires
        ast is Switch,
    ensures
        starts_with(render(ast, depth, blanks).0, indentation(depth)),
        render(ast, depth, blanks).0.len() > indentation(depth).len(),
        render(ast, depth, blanks).0[indentation(depth).len() as int] != 32u8,
        opens_block(ast) ==> ends_with(render(ast, depth, blanks).0, closing(depth)),
{
    let ind = indentation(depth);
    reveal_strlit("}");
    match ast {
        Ast::Switch { condition, value_block_or_fallthrough_vec } => {
            reveal_strlit("switch ");
            let cases = render_cases(
                value_block_or_fallthrough_vec,
                value_block_or_fallthrough_vec.len() as nat,
                depth + 1,
                0,
            );
            let content = ascii("switch "@) + condition@ + ascii(" {"@);
            let header = line(depth, content);
            lemma_line_leads(depth, content);
            lemma_extend(header, cases.0, ind);
            lemma_extend(header + cases.0, closing(depth), ind);
            lemma_ends(header + cases.0, closing(depth));
        },
        _ => {},
    }
}

proof fn lemma_indentation_statement(ast: Ast, depth: nat, blanks: nat)
    requires
        ast is Statement,
    ensures
        starts_with(render(ast, depth, blanks).0, indentation(depth)),
        render(ast, depth, blanks).0.len() > indentation(depth).len(),
        render(ast, depth, blanks).0[indentation(depth).len() as int] != 32u8,
        opens_block(ast) ==> ends_with(render(ast, depth, blanks).0, closing(depth)),
{
    let ind = indentation(depth);
    match ast {
        Ast::Statement(st) => {
            reveal_strlit("set");
            reveal_strlit("log");
            reveal_strlit("snat");
            reveal_strlit("node");
            reveal_strlit("pool");
            reveal_strlit("snatpool");
            reveal_strlit("return");
            let t = statement_text(st);
            assert(t[0] != 32u8);
            assert((ind + t).subrange(0, ind.len() as int) =~= ind);
        },
        _ => {},
    }
}

/// A node other than a block or a blank-line marker, rendered at `depth`, starts with exactly
/// `depth` indentation units: the indentation, then a byte that is not a space. A node that
/// opens a block ends with the closing line at its own depth, not at its body's depth.
pub proof fn lemma_indentation(ast: Ast, depth: nat, blanks: nat)
    requires
        !(ast is Block),
        !(ast is Newline),
    ensures
        starts_with(render(ast, depth, blanks).0, indentation(depth)),
        render(ast, depth, blanks).0.len() > indentation(depth).len(),
        render(ast, depth, blanks).0[indentation(depth).len() as int] != 32u8,
        opens_block(ast) ==> ends_with(render(ast, depth, blanks).0, closing(depth)),
{
    match ast {
        Ast::Comment(..) => lemma_indentation_comment(ast, depth, blanks),
        Ast::Procedure { .. } => lemma_indentation_procedure(ast, depth, blanks),
        Ast::If { .. } => lemma_indentation_if(ast, depth, blanks),
        Ast::IfElse { .. } => lemma_indentation_if_else(ast, depth, blanks),
        Ast::IfElseIf { .. } => lemma_indentation_if_else_if(ast, depth, blanks),
        Ast::Switch { .. } => lemma_indentation_switch(ast, depth, blanks),
        Ast::Statement(..) => lemma_indentation_statement(ast, depth, blanks),
        _ => {},
    }
}

/// A run of blank-line markers that starts after the run was reset: after `n` of them the text
/// holds `min(n, 2)` line breaks.
proof fn lemma_blank_run(children: Vec<Ast>, n: nat, depth: nat)
    requires
        n <= children.len(),
        forall|i: int| 0 <= i < children.len() ==> #[trigger] children[i] is Newline,
    ensures
        render_list(children, n, depth, 0) == (blank_lines(if n < 2 {
            n
        } else {
            2
        }), if n < usize::MAX {
            n
        } else {
            usize::MAX as nat
        }),
    decreases n,
{
    if n > 0 {
        lemma_blank_run(children, (n - 1) as nat, depth);
        let front = render_list(children, (n - 1) as nat, depth, 0);
        assert(children[n - 1] is Newline);
        assert(render(children[n - 1], depth, front.1) == (if front.1 < 2 {
            line_break()
        } else {
            Seq::<u8>::empty()
        }, if front.1 < usize::MAX {
            front.1 + 1
        } else {
            front.1
        }));
        let m: nat = if n < 2 {
            n
        } else {
            2
        };
        assert(render_list(children, n, depth, 0).0 =~= blank_lines(m));
    }
}

/// Blank lines are capped: a block of `n` blank-line markers renders as exactly `min(n, 2)`
/// blank lines.
pub proof fn lemma_blank_lines_capped(children: Vec<Ast>, depth: nat, blanks: nat)
    requires
        forall|i: int| 0 <= i < children.len() ==> #[trigger] children[i] is Newline,
    ensures
        render(Ast::Block(children), depth, blanks).0 == blank_lines(
            if children.len() < 2 {
                children.len() as nat
            } else {
                2
            },
        ),
{
    lemma_blank_run(children, children.len() as nat, depth);
}

/// A switch case without a body renders as one line, its value followed by ` -`, with no block
/// of its own; the blank-line run is left as it was.
pub proof fn lemma_fallthrough_case(
    cases: Vec<(Vec<u8>, Option<Ast>)>,
    n: nat,
    depth: nat,
    blanks: nat,
)
    requires
        1 <= n <= cases.len(),
        cases[n - 1].1 is None,
    ensures
        render_cases(cases, n, depth, blanks) == (render_cases(
            cases,
            (n - 1) as nat,
            depth,
            blanks,
        ).0 + line(depth, cases[n - 1].0@ + ascii(" -"@)), render_cases(
            cases,
            (n - 1) as nat,
            depth,
            blanks,
        ).1),
{
}

/// In an `if`/`elseif` chain the first pair opens with `if`, every later pair with `elseif`,
/// and an `else` block always follows the pairs.
pub proof fn lemma_if_else_if_keywords(
    condition_block_vec: Vec<(Vec<u8>, Ast)>,
    block_if_false: Box<Ast>,
    depth: nat,
    blanks: nat,
)
    requires
        condition_block_vec.len() >= 1,
    ensures
        starts_with(
            render(Ast::IfElseIf { condition_block_vec, block_if_false }, depth, blanks).0,
            condition_header(depth, ascii("if { "@), condition_block_vec[0].0@),
        ),
        forall|k: nat|
            1 <= k < condition_block_vec.len() ==> starts_with(
                #[trigger] render_branches(condition_block_vec, k + 1, depth, 0).0,
                render_branches(condition_block_vec, k, depth, 0).0 + condition_header(
                    depth,
                    ascii("elseif { "@),
                    condition_block_vec[k as int].0@,
                ),
            ),
        ({
            let arms = render_branches(
                condition_block_vec,
                condition_block_vec.len() as nat,
                depth,
                0,
            );
            render(Ast::IfElseIf { condition_block_vec, block_if_false }, depth, blanks).0
                == arms.0 + line(depth, ascii("else {"@)) + render(
                *block_if_false,
                depth + 1,
                arms.1,
            ).0 + closing(depth)
        }),
{
    let n = condition_block_vec.len() as nat;
    lemma_branches_start(condition_block_vec, n, depth, 0);
    let out = render(Ast::IfElseIf { condition_block_vec, block_if_false }, depth, blanks).0;
    let h = condition_header(depth, ascii("if { "@), condition_block_vec[0].0@);
    let arms = render_branches(condition_block_vec, n, depth, 0).0;
    assert(out.subrange(0, h.len() as int) =~= arms.subrange(0, h.len() as int));
    assert forall|k: nat| 1 <= k < condition_block_vec.len() implies starts_with(
        #[trigger] render_branches(condition_block_vec, k + 1, depth, 0).0,
        render_branches(condition_block_vec, k, depth, 0).0 + condition_header(
            depth,
            ascii("elseif { "@),
            condition_block_vec[k as int].0@,
        ),
    ) by {
        let whole = render_branches(condition_block_vec, k + 1, depth, 0).0;
        let p = render_branches(condition_block_vec, k, depth, 0).0 + condition_header(
            depth,
            ascii("elseif { "@),
            condition_block_vec[k as int].0@,
        );
        assert(whole.subrange(0, p.len() as int) =~= p);
    }
}

/// An empty block renders as nothing, so an empty body leaves nothing between a block's
/// opening and closing lines.
pub proof fn lemma_empty_block(children: Vec<Ast>, depth: nat, blanks: nat)
    requires
        children.len() == 0,
    ensures
        render(Ast::Block(children), depth, blanks) == (Seq::<u8>::empty(), 0nat),
{
    assert(render_list(children, 0, depth, 0) == (Seq::<u8>::empty(), 0nat));
}

} // verus!
