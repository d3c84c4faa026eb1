//! The program as host code: each instruction becomes the statement that
//! carries it out against a sink and an escaping strategy, both given by
//! name.
use vstd::prelude::*;
use vstd::string::StringExecFns;
use crate::instruction::{arm_models, models, Arm, Instruction, Node};

verus! {

/// The text `s` written as a string literal of the host language.
pub uninterp spec fn debug_quoted(s: Seq<char>) -> Seq<char>;

/// Calls `format!` with `{:?}`, that is the `Debug` form of a `str` in the
/// standard library: the text in double quotes, with escapes. Nothing is
/// proved of it: the result is taken to depend on the text alone, and
/// contracts speak of it as `debug_quoted`.
#[verifier::external_body]
fn debug_quote(text: &str) -> (r: String)
    ensures
        r@ == debug_quoted(text@),
{
    format!("{:?}", text)
}

/// The statement that writes a literal, given in quotes, to `output`.
pub open spec fn literal_code(output: Seq<char>, quoted: Seq<char>) -> Seq<char> {
    "write!("@ + output + ", \"{}\", "@ + quoted + ")?;"@
}

/// The statement that writes the value of `expr` to `output` unescaped.
pub open spec fn raw_code(output: Seq<char>, expr: Seq<char>) -> Seq<char> {
    "write!("@ + output + ", \"{}\", "@ + expr + ")?;"@
}

/// The statement that hands the value of `expr` to the strategy `escape`,
/// which writes it to `output`.
pub open spec fn value_code(output: Seq<char>, escape: Seq<char>, expr: Seq<char>) -> Seq<char> {
    escape + ".write("@ + output + ", &format!(\"{}\", "@ + expr + "))?;"@
}

/// The host code of one instruction. A block is its code and its body in
/// braces; an arm is its pattern, `=>` and its body in braces.
pub open spec fn code_of(n: Node, output: Seq<char>, escape: Seq<char>) -> Seq<char>
    decreases n, 0nat,
{
    match n {
        Node::Literal(t) => literal_code(output, debug_quoted(t)),
        Node::Interpolate(e) => value_code(output, escape, e),
        Node::RawEmit(e) => raw_code(output, e),
        Node::Exec(c) => c + ";"@,
        Node::Scope(h, b) => h + "{"@ + code_of_all(b, b.len(), output, escape) + "}"@,
        Node::MatchScope(h, b, arms) => h + "{"@ + code_of_all(b, b.len(), output, escape)
            + code_of_arms(arms, arms.len(), output, escape) + "}"@,
    }
}

/// The host code of the first `count` instructions of `nodes`, in order.
pub open spec fn code_of_all(
    nodes: Seq<Node>,
    count: nat,
    output: Seq<char>,
    escape: Seq<char>,
) -> Seq<char>
    decreases nodes, count,
{
    if count == 0 || count > nodes.len() {
        Seq::empty()
    } else {
        code_of_all(nodes, (count - 1) as nat, output, escape) + code_of(
            nodes[count - 1],
            output,
            escape,
        )
    }
}

/// The host code of the first `count` arms of `arms`, in order.
pub open spec fn code_of_arms(
    arms: Seq<(Seq<char>, Seq<Node>)>,
    count: nat,
    output: Seq<char>,
    escape: Seq<char>,
) -> Seq<char>
    decreases arms, count,
{
    if count == 0 || count > arms.len() {
        Seq::empty()
    } else {
        code_of_arms(arms, (count - 1) as nat, output, escape) + (arms[count - 1].0 + " => {"@
            + code_of_all(arms[count - 1].1, arms[count - 1].1.len(), output, escape) + "}"@)
    }
}

/// The host code of a whole program: a block that runs the instructions
/// and then yields success.
pub open spec fn program_code(nodes: Seq<Node>, output: Seq<char>, escape: Seq<char>) -> Seq<
    char,
> {
    "{"@ + code_of_all(nodes, nodes.len(), output, escape) + "::core::result::Result::Ok(())"@
        + "}"@
}

/// Appends the statement that writes a literal, given in quotes, to the
/// sink named `output`.
pub fn push_literal(code: &mut String, output: &str, quoted: &str)
    ensures
        final(code)@ == old(code)@ + literal_code(output@, quoted@),
{
    code.append("write!(");
    code.append(output);
    code.append(", \"{}\", ");
    code.append(quoted);
    code.append(")?;");
    assert(code@ =~= old(code)@ + literal_code(output@, quoted@));
}

/// Appends the host code of one instruction.
pub fn push_instruction(code: &mut String, ins: &Instruction, output: &str, escape: &str)
    ensures
        final(code)@ == old(code)@ + code_of(ins.model(), output@, escape@),
    decreases ins, 0nat,
{
    match ins {
        Instruction::Literal(t) => {
            let quoted = debug_quote(t.as_str());
            push_literal(code, output, quoted.as_str());
        },
        Instruction::Interpolate(e) => {
            code.append(escape);
            code.append(".write(");
            code.append(output);
            code.append(", &format!(\"{}\", ");
            code.append(e.as_str());
            code.append("))?;");
            assert(code@ =~= old(code)@ + value_code(output@, escape@, e@));
        },
        Instruction::RawEmit(e) => {
            code.append("write!(");
            code.append(output);
            code.append(", \"{}\", ");
            code.append(e.as_str());
            code.append(")?;");
            assert(code@ =~= old(code)@ + raw_code(output@, e@));
        },
        Instruction::Exec(c) => {
            code.append(c.as_str());
            code.append(";");
            assert(code@ =~= old(code)@ + (c@ + ";"@));
        },
        Instruction::Scope(h, b) => {
            code.append(h.as_str());
            code.append("{");
            push_all(code, b, output, escape);
            code.append("}");
            assert(code@ =~= old(code)@ + (h@ + "{"@ + code_of_all(
                models(b@),
                b@.len(),
                output@,
                escape@,
            ) + "}"@));
        },
        Instruction::MatchScope(h, b, arms) => {
            code.append(h.as_str());
            code.append("{");
            push_all(code, b, output, escape);
            push_arms(code, arms, output, escape);
            code.append("}");
            assert(code@ =~= old(code)@ + (h@ + "{"@ + code_of_all(
                models(b@),
                b@.len(),
                output@,
                escape@,
            ) + code_of_arms(arm_models(arms@), arms@.len(), output@, escape@) + "}"@));
        },
    }
}

/// Appends the host code of a sequence of instructions.
pub fn push_all(code: &mut String, program: &Vec<Instruction>, output: &str, escape: &str)
    ensures
        final(code)@ == old(code)@ + code_of_all(
            models(program@),
            program@.len(),
            output@,
            escape@,
        ),
    decreases program, 1nat,
{
    let mut i: usize = 0;
    while i < program.len()
        invariant
            i <= program@.len(),
            code@ == old(code)@ + code_of_all(models(program@), i as nat, output@, escape@),
        decreases program@.len() - i,
    {
        push_instruction(code, &program[i], output, escape);
        assert(code@ =~= old(code)@ + code_of_all(
            models(program@),
            (i + 1) as nat,
            output@,
            escape@,
        ));
        i += 1;
    }
}

/// Appends the host code of a sequence of arms.
fn push_arms(code: &mut String, arms: &Vec<Arm>, output: &str, escape: &str)
    ensures
        final(code)@ == old(code)@ + code_of_arms(
            arm_models(arms@),
            arms@.len(),
            output@,
            escape@,
        ),
    decreases arms, 1nat,
{
    let mut i: usize = 0;
    while i < arms.len()
        invariant
            i <= arms@.len(),
            code@ == old(code)@ + code_of_arms(arm_models(arms@), i as nat, output@, escape@),
        decreases arms@.len() - i,
    {
        let ghost before = code@;
        let arm = &arms[i];
        code.append(arm.pattern.as_str());
        code.append(" => {");
        push_all(code, &arm.body, output, escape);
        code.append("}");
        assert(code@ =~= before + (arm.pattern@ + " => {"@ + code_of_all(
            models(arm.body@),
            arm.body@.len(),
            output@,
            escape@,
        ) + "}"@));
        assert(code@ =~= old(code)@ + code_of_arms(
            arm_models(arms@),
            (i + 1) as nat,
            output@,
            escape@,
        ));
        i += 1;
    }
}

/// The host code of a program, for the sink named `output` and the
/// escaping strategy named `escape`.
pub fn generate(program: &Vec<Instruction>, output: &str, escape: &str) -> (code: String)
    ensures
        code@ == program_code(models(program@), output@, escape@),
{
    let mut code = String::new();
    code.append("{");
    push_all(&mut code, program, output, escape);
    code.append("::core::result::Result::Ok(())");
    code.append("}");
    assert(code@ =~= program_code(models(program@), output@, escape@));
    code
}

} // verus!
