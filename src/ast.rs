use vstd::prelude::*;

verus! {

/// One line of code in a rule: a keyword and its operands, each kept as opaque text.
/// A `Return` without a value renders as a bare `return`.
pub enum Statement {
    SetVar { identifier: Vec<u8>, value: Vec<u8> },
    Log { bucket: Vec<u8>, value: Vec<u8> },
    Snat { ip_address: Vec<u8>, port: Vec<u8> },
    Node { ip_address: Vec<u8>, port: Vec<u8> },
    Pool { identifier: Vec<u8> },
    SnatPool { identifier: Vec<u8> },
    Return { value: Option<Vec<u8>> },
}

/// A node of the syntax tree of a rule file.
pub enum Ast {
    /// Nodes rendered one after another.
    Block(Vec<Ast>),
    /// A line `# <text>`.
    Comment(Vec<u8>),
    /// `proc <name> { <parameters> } {`, its body one level deeper, then `}`.
    Procedure { name: Vec<u8>, parameters: Vec<Vec<u8>>, body: Box<Ast> },
    /// `if { <condition> } {`, its body, then `}`.
    If { condition: Vec<u8>, body: Box<Ast> },
    /// An `if` block followed by an `else` block.
    IfElse { condition: Vec<u8>, block_if_true: Box<Ast>, block_if_false: Box<Ast> },
    /// An `if` block, an `elseif` block for each further pair, then an `else` block.
    IfElseIf { condition_block_vec: Vec<(Vec<u8>, Ast)>, block_if_false: Box<Ast> },
    /// `switch <condition> {` and its cases in the order given; a case without a body falls
    /// through to the next one.
    Switch { condition: Vec<u8>, value_block_or_fallthrough_vec: Vec<(Vec<u8>, Option<Ast>)> },
    /// One statement line.
    Statement(Statement),
    /// A request for a blank line; more than two in a row are dropped.
    Newline,
}

impl Ast {
    /// Holds when every `IfElseIf` in the tree has at least one condition/body pair and no
    /// body lies more than `room` indentation levels below this node.
    pub open spec fn well_formed_within(self, room: nat) -> bool
        decreases self,
    {
        match self {
            Ast::Block(children) => forall|i: int|
                0 <= i < children.len() ==> (#[trigger] children[i]).well_formed_within(room),
            Ast::Procedure { body, .. } => room >= 1 && (*body).well_formed_within(
                (room - 1) as nat,
            ),
            Ast::If { body, .. } => room >= 1 && (*body).well_formed_within((room - 1) as nat),
            Ast::IfElse { block_if_true, block_if_false, .. } => {
                &&& room >= 1
                &&& (*block_if_true).well_formed_within((room - 1) as nat)
                &&& (*block_if_false).well_formed_within((room - 1) as nat)
            },
            Ast::IfElseIf { condition_block_vec, block_if_false } => {
                &&& condition_block_vec.len() >= 1
                &&& room >= 1
                &&& forall|i: int|
                    0 <= i < condition_block_vec.len() ==> (
                    #[trigger] condition_block_vec[i]).1.well_formed_within((room - 1) as nat)
                &&& (*block_if_false).well_formed_within((room - 1) as nat)
            },
            Ast::Switch { value_block_or_fallthrough_vec, .. } => {
                &&& room >= 1
                &&& forall|i: int|
                    0 <= i < value_block_or_fallthrough_vec.len() ==> match (
                    #[trigger] value_block_or_fallthrough_vec[i]).1 {
                        Some(body) => room >= 2 && body.well_formed_within((room - 2) as nat),
                        None => true,
                    }
            },
            _ => true,
        }
    }

    /// Tells whether the tree is well formed and its bodies nest at most `room` levels deep.
    #[verifier::loop_isolation(false)]
    pub fn fits_within(&self, room: usize) -> (r: bool)
        ensures
            r == self.well_formed_within(room as nat),
        decreases self,
    {
        match self {
            Ast::Block(children) => {
                let mut i: usize = 0;
                while i < children.len()
                    invariant
                        0 <= i <= children@.len(),
                        forall|j: int|
                            0 <= j < i ==> (#[trigger] children[j]).well_formed_within(room as nat),
                    decreases children@.len() - i,
                {
                    proof {
                        vstd::std_specs::vec::axiom_vec_index_decreases(*children, i as int);
                    }
                    if !children[i].fits_within(room) {
                        return false;
                    }
                    i += 1;
                }
                true
            },
            Ast::Procedure { body, .. } => room >= 1 && body.fits_within(room - 1),
            Ast::If { body, .. } => room >= 1 && body.fits_within(room - 1),
            Ast::IfElse { block_if_true, block_if_false, .. } => {
                room >= 1 && block_if_true.fits_within(room - 1) && block_if_false.fits_within(
                    room - 1,
                )
            },
            Ast::IfElseIf { condition_block_vec, block_if_false } => {
                if condition_block_vec.len() == 0 || room == 0 {
                    return false;
                }
                let mut i: usize = 0;
                while i < condition_block_vec.len()
                    invariant
                        0 <= i <= condition_block_vec@.len(),
                        forall|j: int|
                            0 <= j < i ==> (#[trigger] condition_block_vec[j]).1.well_formed_within(
                                (room - 1) as nat,
                            ),
                    decreases condition_block_vec@.len() - i,
                {
                    proof {
                        vstd::std_specs::vec::axiom_vec_index_decreases(
                            *condition_block_vec,
                            i as int,
                        );
                    }
                    if !condition_block_vec[i].1.fits_within(room - 1) {
                        return false;
                    }
                    i += 1;
                }
                block_if_false.fits_within(room - 1)
            },
            Ast::Switch { value_block_or_fallthrough_vec, .. } => {
                let cases = value_block_or_fallthrough_vec;
                if room == 0 {
                    return false;
                }
                let mut i: usize = 0;
                while i < cases.len()
                    invariant
                        0 <= i <= cases@.len(),
                        forall|j: int|
                            0 <= j < i ==> match (#[trigger] cases[j]).1 {
                                Some(body) => room >= 2 && body.well_formed_within(
                                    (room - 2) as nat,
                                ),
                                None => true,
                            },
                    decreases cases@.len() - i,
                {
                    proof {
                        vstd::std_specs::vec::axiom_vec_index_decreases(*cases, i as int);
                    }
                    match &cases[i].1 {
                        Some(body) => {
                            if room < 2 || !body.fits_within(room - 2) {
                                return false;
                            }
                        },
                        None => {},
                    }
                    i += 1;
                }
                true
            },
            _ => true,
        }
    }
}

} // verus!
