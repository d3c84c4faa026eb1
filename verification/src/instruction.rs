//! The compiled program: an ordered sequence of instructions, with nested
//! sequences for blocks.
use vstd::prelude::*;

verus! {

/// One unit of a compiled template.
#[derive(Debug, PartialEq, Eq)]
pub enum Instruction {
    /// Emit the text as it is.
    Literal(String),
    /// Evaluate the expression, escape its value and emit it.
    Interpolate(String),
    /// Evaluate the expression and emit its value unescaped.
    RawEmit(String),
    /// Run the code for its effect; emits nothing.
    Exec(String),
    /// A block: the code that opens it, and its body.
    Scope(String, Vec<Instruction>),
    /// A block with arms: the code that opens it, what stands before the
    /// first arm, and the arms in source order.
    MatchScope(String, Vec<Instruction>, Vec<Arm>),
}

/// One arm of a block with arms.
#[derive(Debug, PartialEq, Eq)]
pub struct Arm {
    pub pattern: String,
    pub body: Vec<Instruction>,
}

/// The mathematical form of an instruction.
pub ghost enum Node {
    Literal(Seq<char>),
    Interpolate(Seq<char>),
    RawEmit(Seq<char>),
    Exec(Seq<char>),
    Scope(Seq<char>, Seq<Node>),
    MatchScope(Seq<char>, Seq<Node>, Seq<(Seq<char>, Seq<Node>)>),
}

impl Instruction {
    pub open spec fn model(self) -> Node
        decreases self,
    {
        match self {
            Instruction::Literal(t) => Node::Literal(t@),
            Instruction::Interpolate(e) => Node::Interpolate(e@),
            Instruction::RawEmit(e) => Node::RawEmit(e@),
            Instruction::Exec(c) => Node::Exec(c@),
            Instruction::Scope(h, b) => Node::Scope(h@, models(b@)),
            Instruction::MatchScope(h, b, a) => Node::MatchScope(h@, models(b@), arm_models(a@)),
        }
    }
}

impl Arm {
    pub open spec fn model(self) -> (Seq<char>, Seq<Node>)
        decreases self,
    {
        (self.pattern@, models(self.body@))
    }
}

/// The mathematical form of a sequence of instructions.
pub open spec fn models(v: Seq<Instruction>) -> Seq<Node>
    decreases v,
{
    Seq::new(
        v.len(),
        |i: int|
            if 0 <= i < v.len() {
                v[i].model()
            } else {
                Node::Literal(Seq::empty())
            },
    )
}

/// The mathematical form of a sequence of arms.
pub open spec fn arm_models(v: Seq<Arm>) -> Seq<(Seq<char>, Seq<Node>)>
    decreases v,
{
    Seq::new(
        v.len(),
        |i: int|
            if 0 <= i < v.len() {
                v[i].model()
            } else {
                (Seq::empty(), Seq::empty())
            },
    )
}

/// Appending an instruction appends its mathematical form.
pub proof fn lemma_models_push(v: Seq<Instruction>, x: Instruction)
    ensures
        models(v.push(x)) == models(v).push(x.model()),
{
    assert(models(v.push(x)) =~= models(v).push(x.model()));
}

/// Appending an arm appends its mathematical form.
pub proof fn lemma_arm_models_push(v: Seq<Arm>, x: Arm)
    ensures
        arm_models(v.push(x)) == arm_models(v).push(x.model()),
{
    assert(arm_models(v.push(x)) =~= arm_models(v).push(x.model()));
}

} // verus!
