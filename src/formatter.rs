//! The formatter: one depth-first pass over a tree that appends its text to a buffer.
use vstd::prelude::*;

use crate::ast::{Ast, Statement};
use crate::render::{
    ascii, closing, condition_header, branch_keyword, indentation, line, line_break, next_blanks,
    parameter_text, render, render_branches, render_cases, render_list, statement_text,
};

verus! {

/// What a formatter holds: the current depth, the length of the current run of blank-line
/// markers, and the text written so far.
pub struct FormatterView {
    pub depth: nat,
    pub blanks: nat,
    pub output: Seq<u8>,
}

/// The bytes of an ASCII text, one per character.
fn ascii_bytes(s: &str) -> (r: &[u8])
    requires
        vstd::string::is_ascii(s),
    ensures
        r@ == ascii(s@),
{
    proof {
        vstd::string::is_ascii_spec_bytes(s);
    }
    let bytes: &[u8] = s.as_bytes();
    assert(bytes@ =~= ascii(s@));
    bytes
}

/// Renders a syntax tree as canonically indented source text.
pub struct Formatter {
    depth: usize,
    consecutive_new_lines: usize,
    buf: Vec<u8>,
}

impl View for Formatter {
    type V = FormatterView;

    closed spec fn view(&self) -> FormatterView {
        FormatterView {
            depth: self.depth as nat,
            blanks: self.consecutive_new_lines as nat,
            output: self.buf@,
        }
    }
}

impl Formatter {
    /// A formatter at depth zero, with no blank-line run and nothing written.
    pub fn new() -> (r: Self)
        ensures
            r@ == (FormatterView { depth: 0, blanks: 0, output: Seq::empty() }),
    {
        Self { depth: 0, consecutive_new_lines: 0, buf: Vec::new() }
    }

    /// Appends `slice` to the output.
    fn write(&mut self, slice: &[u8])
        ensures
            final(self)@ == (FormatterView { output: old(self)@.output + slice@, ..old(self)@ }),
    {
        let ghost start = self.buf@;
        let mut i: usize = 0;
        while i < slice.len()
            invariant
                0 <= i <= slice@.len(),
                self.depth == old(self).depth,
                self.consecutive_new_lines == old(self).consecutive_new_lines,
                start == old(self).buf@,
                self.buf@ == start + slice@.subrange(0, i as int),
            decreases slice@.len() - i,
        {
            self.buf.push(slice[i]);
            i += 1;
            assert(self.buf@ =~= start + slice@.subrange(0, i as int));
        }
        assert(slice@.subrange(0, i as int) =~= slice@);
    }

    /// Appends a line break.
    fn newline(&mut self)
        ensures
            final(self)@ == (FormatterView {
                output: old(self)@.output + line_break(),
                ..old(self)@
            }),
    {
        self.buf.push(10u8);
        assert(self.buf@ =~= old(self).buf@ + line_break());
    }

    /// Appends `slice` and a line break.
    fn writeline(&mut self, slice: &[u8])
        ensures
            final(self)@ == (FormatterView {
                output: old(self)@.output + slice@ + line_break(),
                ..old(self)@
            }),
    {
        self.write(slice);
        self.newline();
    }

    /// Appends the indentation of the current depth.
    fn indent(&mut self)
        ensures
            final(self)@ == (FormatterView {
                output: old(self)@.output + indentation(old(self)@.depth),
                ..old(self)@
            }),
    {
        let ghost start = self.buf@;
        let mut i: usize = 0;
        while i < self.depth
            invariant
                0 <= i <= self.depth,
                self.depth == old(self).depth,
                self.consecutive_new_lines == old(self).consecutive_new_lines,
                start == old(self).buf@,
                self.buf@ == start + indentation(i as nat),
            decreases self.depth - i,
        {
            proof {
                reveal_strlit("    ");
            }
            self.write(ascii_bytes("    "));
            i += 1;
            assert(self.buf@ =~= start + indentation(i as nat));
        }
    }

    /// Appends the line that closes a block at the current depth.
    fn close_block(&mut self)
        ensures
            final(self)@ == (FormatterView {
                output: old(self)@.output + closing(old(self)@.depth),
                ..old(self)@
            }),
    {
        self.indent();
        proof {
            reveal_strlit("}");
        }
        self.writeline(ascii_bytes("}"));
        assert(self.buf@ =~= old(self).buf@ + closing(old(self)@.depth));
    }

    /// Writes a space and then `operand`.
    fn write_operand(&mut self, operand: &Vec<u8>)
        ensures
            final(self)@ == (FormatterView {
                output: old(self)@.output + ascii(" "@) + operand@,
                ..old(self)@
            }),
    {
        proof {
            reveal_strlit(" ");
        }
        self.write(ascii_bytes(" "));
        self.write(operand.as_slice());
        assert(self.buf@ =~= old(self).buf@ + ascii(" "@) + operand@);
    }

    /// Appends a statement: its keyword, its operands and a line break.
    fn write_statement(&mut self, s: &Statement)
        ensures
            final(self)@ == (FormatterView {
                output: old(self)@.output + statement_text(*s),
                ..old(self)@
            }),
    {
        proof {
            reveal_strlit("set");
            reveal_strlit("log");
            reveal_strlit("snat");
            reveal_strlit("node");
            reveal_strlit("pool");
            reveal_strlit("snatpool");
            reveal_strlit("return");
        }
        match s {
            Statement::SetVar { identifier, value } => {
                self.write(ascii_bytes("set"));
                self.write_operand(identifier);
                self.write_operand(value);
            },
            Statement::Log { bucket, value } => {
                self.write(ascii_bytes("log"));
                self.write_operand(bucket);
                self.write_operand(value);
            },
            Statement::Snat { ip_address, port } => {
                self.write(ascii_bytes("snat"));
                self.write_operand(ip_address);
                self.write_operand(port);
            },
            Statement::Node { ip_address, port } => {
                self.write(ascii_bytes("node"));
                self.write_operand(ip_address);
                self.write_operand(port);
            },
            Statement::Pool { identifier } => {
                self.write(ascii_bytes("pool"));
                self.write_operand(identifier);
            },
            Statement::SnatPool { identifier } => {
                self.write(ascii_bytes("snatpool"));
                self.write_operand(identifier);
            },
            Statement::Return { value } => {
                self.write(ascii_bytes("return"));
                match value {
                    Some(v) => self.write_operand(v),
                    None => {},
                }
            },
        }
        self.newline();
        assert(self.buf@ =~= old(self).buf@ + statement_text(*s));
    }

    /// Appends the text of `ast`, rendered at the current depth, and returns the formatter's
    /// buffer.
    pub fn format(self, ast: Ast) -> (r: Vec<u8>)
        requires
            ast.well_formed_within((usize::MAX - self@.depth) as nat),
        ensures
            r@ == self@.output + render(ast, self@.depth, self@.blanks).0,
    {
        let mut formatter = self;
        formatter.run(&ast);
        formatter.buf
    }

    /// Renders `ast` one level deeper than the current depth.
    fn run_nested(&mut self, ast: &Ast)
        requires
            old(self)@.depth < usize::MAX,
            ast.well_formed_within((usize::MAX - old(self)@.depth - 1) as nat),
        ensures
            final(self)@ == (FormatterView {
                depth: old(self)@.depth,
                blanks: render(*ast, old(self)@.depth + 1, old(self)@.blanks).1,
                output: old(self)@.output + render(*ast, old(self)@.depth + 1, old(self)@.blanks).0,
            }),
        decreases ast, 3nat,
    {
        self.depth += 1;
        self.run(ast);
        self.depth -= 1;
    }

    /// Renders `ast` at the current depth, first counting it into the run of blank-line
    /// markers or ending that run.
    fn run(&mut self, ast: &Ast)
        requires
            ast.well_formed_within((usize::MAX - old(self)@.depth) as nat),
        ensures
            final(self)@ == (FormatterView {
                depth: old(self)@.depth,
                blanks: render(*ast, old(self)@.depth, old(self)@.blanks).1,
                output: old(self)@.output + render(*ast, old(self)@.depth, old(self)@.blanks).0,
            }),
        decreases ast, 2nat,
    {
        self.consecutive_new_lines = match ast {
            Ast::Newline => if self.consecutive_new_lines < usize::MAX {
                self.consecutive_new_lines + 1
            } else {
                self.consecutive_new_lines
            },
            _ => 0,
        };
        let ghost depth = self@.depth;
        let ghost b = self@.blanks;
        assert(b == next_blanks(*ast, old(self)@.blanks));
        let ghost expected = render(*ast, depth, old(self)@.blanks);
        proof {
            reveal_strlit("# ");
        }
        match ast {
            Ast::Block(_) => self.run_block(ast),
            Ast::Comment(data) => {
                self.indent();
                self.write(ascii_bytes("# "));
                self.write(data.as_slice());
                self.newline();
            },
            Ast::Procedure { .. } => self.run_procedure(ast),
            Ast::If { .. } => self.run_if(ast),
            Ast::IfElse { .. } => self.run_if_else(ast),
            Ast::IfElseIf { .. } => self.run_if_else_if(ast),
            Ast::Switch { .. } => self.run_switch(ast),
            Ast::Statement(s) => {
                self.indent();
                self.write_statement(s);
            },
            Ast::Newline => {
                if self.consecutive_new_lines <= 2 {
                    self.newline();
                }
            },
        }
        assert(self@.output =~= old(self)@.output + expected.0);
    }

    /// Renders each child of a block in turn.
    #[verifier::loop_isolation(false)]
    fn run_block(&mut self, ast: &Ast)
        requires
            *ast is Block,
            old(self)@.blanks == 0,
            ast.well_formed_within((usize::MAX - old(self)@.depth) as nat),
        ensures
            final(self)@ == (FormatterView {
                depth: old(self)@.depth,
                blanks: render(*ast, old(self)@.depth, 0).1,
                output: old(self)@.output + render(*ast, old(self)@.depth, 0).0,
            }),
        decreases ast, 1nat,
    {
        let ghost depth = self@.depth;
        let ghost b: nat = 0;
        let ghost start = self@.output;
        let ghost room = (usize::MAX - depth) as nat;
        let ghost expected = render(*ast, depth, 0);
        match ast {
            Ast::Block(trees) => {
                assert(decreases_to!(*ast => *trees));
                let mut i: usize = 0;
                while i < trees.len()
                    invariant
                        0 <= i <= trees@.len(),
                        self@ == (FormatterView {
                            depth,
                            blanks: render_list(*trees, i as nat, depth, b).1,
                            output: start + render_list(*trees, i as nat, depth, b).0,
                        }),
                    decreases trees@.len() - i,
                {
                    assert(trees[i as int].well_formed_within(room));
                    proof {
                        vstd::std_specs::vec::axiom_vec_index_decreases(*trees, i as int);
                    }
                    self.run(&trees[i]);
                    i += 1;
                    assert(self@.output =~= start + render_list(*trees, i as nat, depth, b).0);
                }
            },
            _ => {},
        }
        assert(self@.output =~= start + expected.0);
    }

    /// Renders a procedure: its header, its body one level deeper, and the closing line.
    #[verifier::loop_isolation(false)]
    fn run_procedure(&mut self, ast: &Ast)
        requires
            *ast is Procedure,
            old(self)@.blanks == 0,
            ast.well_formed_within((usize::MAX - old(self)@.depth) as nat),
        ensures
            final(self)@ == (FormatterView {
                depth: old(self)@.depth,
                blanks: render(*ast, old(self)@.depth, 0).1,
                output: old(self)@.output + render(*ast, old(self)@.depth, 0).0,
            }),
        decreases ast, 1nat,
    {
        let ghost depth = self@.depth;
        let ghost b: nat = 0;
        let ghost start = self@.output;
        let ghost expected = render(*ast, depth, 0);
        proof {
            reveal_strlit("proc ");
            reveal_strlit(" {");
            reveal_strlit(" } {");
        }
        match ast {
            Ast::Procedure { name, parameters, body } => {
                self.indent();
                self.write(ascii_bytes("proc "));
                self.write(name.as_slice());
                self.write(ascii_bytes(" {"));
                let ghost before = self@.output;
                let mut i: usize = 0;
                while i < parameters.len()
                    invariant
                        0 <= i <= parameters@.len(),
                        self@ == (FormatterView {
                            depth,
                            blanks: b,
                            output: before + parameter_text(parameters@.subrange(0, i as int)),
                        }),
                    decreases parameters@.len() - i,
                {
                    self.write_operand(&parameters[i]);
                    i += 1;
                    assert(parameters@.subrange(0, i as int).drop_last() =~= parameters@.subrange(
                        0,
                        i - 1,
                    ));
                    assert(self@.output =~= before + parameter_text(
                        parameters@.subrange(0, i as int),
                    ));
                }
                assert(parameters@.subrange(0, i as int) =~= parameters@);
                self.writeline(ascii_bytes(" } {"));
                assert(decreases_to!(*ast => **body));
                self.run_nested(body);
                self.close_block();
            },
            _ => {},
        }
        assert(self@.output =~= start + expected.0);
    }

    /// Renders an `if` block.
    #[verifier::loop_isolation(false)]
    fn run_if(&mut self, ast: &Ast)
        requires
            *ast is If,
            old(self)@.blanks == 0,
            ast.well_formed_within((usize::MAX - old(self)@.depth) as nat),
        ensures
            final(self)@ == (FormatterView {
                depth: old(self)@.depth,
                blanks: render(*ast, old(self)@.depth, 0).1,
                output: old(self)@.output + render(*ast, old(self)@.depth, 0).0,
            }),
        decreases ast, 1nat,
    {
        let ghost depth = self@.depth;
        let ghost start = self@.output;
        let ghost expected = render(*ast, depth, 0);
        proof {
            reveal_strlit("if { ");
            reveal_strlit(" } {");
        }
        match ast {
            Ast::If { condition, body } => {
                self.indent();
                self.write(ascii_bytes("if { "));
                self.write(condition.as_slice());
                self.writeline(ascii_bytes(" } {"));
                assert(decreases_to!(*ast => **body));
                self.run_nested(body);
                self.close_block();
            },
            _ => {},
        }
        assert(self@.output =~= start + expected.0);
    }

    /// Renders an `if` block followed by its `else` block.
    #[verifier::loop_isolation(false)]
    fn run_if_else(&mut self, ast: &Ast)
        requires
            *ast is IfElse,
            old(self)@.blanks == 0,
            ast.well_formed_within((usize::MAX - old(self)@.depth) as nat),
        ensures
            final(self)@ == (FormatterView {
                depth: old(self)@.depth,
                blanks: render(*ast, old(self)@.depth, 0).1,
                output: old(self)@.output + render(*ast, old(self)@.depth, 0).0,
            }),
        decreases ast, 1nat,
    {
        let ghost depth = self@.depth;
        let ghost start = self@.output;
        let ghost expected = render(*ast, depth, 0);
        proof {
            reveal_strlit("if { ");
            reveal_strlit(" } {");
            reveal_strlit("else {");
        }
        match ast {
            Ast::IfElse { condition, block_if_true, block_if_false } => {
                self.indent();
                self.write(ascii_bytes("if { "));
                self.write(condition.as_slice());
                self.writeline(ascii_bytes(" } {"));
                assert(decreases_to!(*ast => **block_if_true));
                self.run_nested(block_if_true);
                self.close_block();
                self.indent();
                self.write(ascii_bytes("else {"));
                self.newline();
                assert(decreases_to!(*ast => **block_if_false));
                self.run_nested(block_if_false);
                self.close_block();
            },
            _ => {},
        }
        assert(self@.output =~= start + expected.0);
    }

    /// Renders an `if`/`elseif` chain and its closing `else` block.
    #[verifier::loop_isolation(false)]
    fn run_if_else_if(&mut self, ast: &Ast)
        requires
            *ast is IfElseIf,
            old(self)@.blanks == 0,
            ast.well_formed_within((usize::MAX - old(self)@.depth) as nat),
        ensures
            final(self)@ == (FormatterView {
                depth: old(self)@.depth,
                blanks: render(*ast, old(self)@.depth, 0).1,
                output: old(self)@.output + render(*ast, old(self)@.depth, 0).0,
            }),
        decreases ast, 1nat,
    {
        let ghost depth = self@.depth;
        let ghost b: nat = 0;
        let ghost start = self@.output;
        let ghost room = (usize::MAX - depth) as nat;
        let ghost expected = render(*ast, depth, 0);
        proof {
            reveal_strlit("if { ");
            reveal_strlit("elseif { ");
            reveal_strlit(" } {");
            reveal_strlit("else {");
        }
        match ast {
            Ast::IfElseIf { condition_block_vec, block_if_false } => {
                assert(decreases_to!(*ast => *condition_block_vec));
                let mut i: usize = 0;
                while i < condition_block_vec.len()
                    invariant
                        0 <= i <= condition_block_vec@.len(),
                        self@ == (FormatterView {
                            depth,
                            blanks: render_branches(*condition_block_vec, i as nat, depth, b).1,
                            output: start + render_branches(
                                *condition_block_vec,
                                i as nat,
                                depth,
                                b,
                            ).0,
                        }),
                    decreases condition_block_vec@.len() - i,
                {
                    let pair = &condition_block_vec[i];
                    assert(pair.1.well_formed_within((room - 1) as nat));
                    proof {
                        vstd::std_specs::vec::axiom_vec_index_decreases(
                            *condition_block_vec,
                            i as int,
                        );
                        assert(decreases_to!(*ast => pair.1));
                    }
                    self.indent();
                    if i == 0 {
                        self.write(ascii_bytes("if { "));
                    } else {
                        self.write(ascii_bytes("elseif { "));
                    }
                    self.write(pair.0.as_slice());
                    self.writeline(ascii_bytes(" } {"));
                    self.run_nested(&pair.1);
                    self.close_block();
                    i += 1;
                    assert(self@.output =~= start + render_branches(
                        *condition_block_vec,
                        i as nat,
                        depth,
                        b,
                    ).0);
                }
                self.indent();
                self.writeline(ascii_bytes("else {"));
                assert(decreases_to!(*ast => **block_if_false));
                self.run_nested(block_if_false);
                self.close_block();
            },
            _ => {},
        }
        assert(self@.output =~= start + expected.0);
    }

    /// Renders a switch: its header, each case one level deeper, and the closing line.
    #[verifier::loop_isolation(false)]
    fn run_switch(&mut self, ast: &Ast)
        requires
            *ast is Switch,
            old(self)@.blanks == 0,
            ast.well_formed_within((usize::MAX - old(self)@.depth) as nat),
        ensures
            final(self)@ == (FormatterView {
                depth: old(self)@.depth,
                blanks: render(*ast, old(self)@.depth, 0).1,
                output: old(self)@.output + render(*ast, old(self)@.depth, 0).0,
            }),
        decreases ast, 1nat,
    {
        let ghost depth = self@.depth;
        let ghost b: nat = 0;
        let ghost start = self@.output;
        let ghost room = (usize::MAX - depth) as nat;
        let ghost expected = render(*ast, depth, 0);
        proof {
            reveal_strlit("switch ");
            reveal_strlit(" {");
            reveal_strlit(" -");
        }
        match ast {
            Ast::Switch { condition, value_block_or_fallthrough_vec } => {
                let cases = value_block_or_fallthrough_vec;
                self.indent();
                self.write(ascii_bytes("switch "));
                self.write(condition.as_slice());
                self.writeline(ascii_bytes(" {"));
                let ghost header_end = self@.output;
                assert(decreases_to!(*ast => *cases));
                self.depth += 1;
                let mut i: usize = 0;
                while i < cases.len()
                    invariant
                        0 <= i <= cases@.len(),
                        self@ == (FormatterView {
                            depth: depth + 1,
                            blanks: render_cases(*cases, i as nat, depth + 1, b).1,
                            output: header_end + render_cases(*cases, i as nat, depth + 1, b).0,
                        }),
                    decreases cases@.len() - i,
                {
                    let case = &cases[i];
                    proof {
                        vstd::std_specs::vec::axiom_vec_index_decreases(*cases, i as int);
                    }
                    self.indent();
                    self.write(case.0.as_slice());
                    match &case.1 {
                        Some(body) => {
                            assert(body.well_formed_within((room - 2) as nat));
                            assert(decreases_to!(*ast => *body));
                            self.writeline(ascii_bytes(" {"));
                            self.run_nested(body);
                            self.close_block();
                        },
                        None => {
                            self.writeline(ascii_bytes(" -"));
                        },
                    }
                    i += 1;
                    assert(self@.output =~= header_end + render_cases(
                        *cases,
                        i as nat,
                        depth + 1,
                        b,
                    ).0);
                }
                self.depth -= 1;
                self.close_block();
            },
            _ => {},
        }
        assert(self@.output =~= start + expected.0);
    }

}

} // verus!
