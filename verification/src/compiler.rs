//! The block compiler: turns the tokens of a template into instructions,
//! keeping a stack of the blocks that are open.
use vstd::prelude::*;
use crate::instruction::{arm_models, lemma_arm_models_push, lemma_models_push, models, Arm, Instruction, Node};
use crate::scanner::{lemma_lexeme_advances, lexeme_at, scan, Lexeme, MarkerKind, Token};
use crate::text::{
    all_whitespace, char_is_alphanumeric, char_is_whitespace, is_alphanumeric, is_blank,
    is_whitespace, slice_text, to_chars,
};

verus! {

/// Why a template does not compile.
#[derive(Debug, PartialEq, Eq)]
pub enum CompileError {
    /// A marker is opened and never closed.
    UnterminatedMarker,
    /// A block marker holds no keyword.
    InvalidBlock,
    /// A close marker names `found`, and the innermost open block is `open`.
    CloseMismatch { found: String, open: String },
    /// A close marker, naming `found`, stands where no block is open.
    CloseAtRoot { found: String },
    /// The template ends while blocks are open, the innermost being `open`.
    UnclosedBlock { open: String },
    /// `text`, which is not blank, stands in a `match` block before its
    /// first arm.
    OutputBeforeFirstArm { text: String },
    /// A branch marker stands outside a `match` block.
    BranchOutsideMatch,
}

/// The mathematical form of a `CompileError`.
pub ghost enum Failure {
    UnterminatedMarker,
    InvalidBlock,
    CloseMismatch { found: Seq<char>, open: Seq<char> },
    CloseAtRoot { found: Seq<char> },
    UnclosedBlock { open: Seq<char> },
    OutputBeforeFirstArm { text: Seq<char> },
    BranchOutsideMatch,
}

impl CompileError {
    pub open spec fn model(self) -> Failure {
        match self {
            CompileError::UnterminatedMarker => Failure::UnterminatedMarker,
            CompileError::InvalidBlock => Failure::InvalidBlock,
            CompileError::CloseMismatch { found, open } => Failure::CloseMismatch {
                found: found@,
                open: open@,
            },
            CompileError::CloseAtRoot { found } => Failure::CloseAtRoot { found: found@ },
            CompileError::UnclosedBlock { open } => Failure::UnclosedBlock { open: open@ },
            CompileError::OutputBeforeFirstArm { text } => Failure::OutputBeforeFirstArm {
                text: text@,
            },
            CompileError::BranchOutsideMatch => Failure::BranchOutsideMatch,
        }
    }
}

/// A block that is open, in mathematical form: its keyword, the code that
/// opened it, the instructions before its first arm, and its arms so far.
pub ghost struct FrameModel {
    pub keyword: Seq<char>,
    pub header: Seq<char>,
    pub body: Seq<Node>,
    pub arms: Seq<(Seq<char>, Seq<Node>)>,
}

pub open spec fn word_if() -> Seq<char> {
    "if"@
}

pub open spec fn word_else() -> Seq<char> {
    "else"@
}

pub open spec fn word_match() -> Seq<char> {
    "match"@
}

pub open spec fn word_block() -> Seq<char> {
    "block"@
}

/// The first position from `from` on that holds no white space, or the
/// length of `s`.
pub open spec fn skip_whitespace(s: Seq<char>, from: int) -> int
    decreases s.len() - from,
{
    if from < 0 || from >= s.len() {
        s.len() as int
    } else if char_is_whitespace(s[from]) {
        skip_whitespace(s, from + 1)
    } else {
        from
    }
}

/// The first position from `from` on that holds neither a letter nor a
/// digit, or the length of `s`.
pub open spec fn skip_alphanumeric(s: Seq<char>, from: int) -> int
    decreases s.len() - from,
{
    if from < 0 || from >= s.len() {
        s.len() as int
    } else if char_is_alphanumeric(s[from]) {
        skip_alphanumeric(s, from + 1)
    } else {
        from
    }
}

/// The keyword of a marker's body: from its first character that is no
/// white space, the letters and digits that follow one another. A blank
/// body has none.
pub open spec fn word_of(s: Seq<char>) -> Option<Seq<char>> {
    let start = skip_whitespace(s, 0);
    if start >= s.len() {
        None
    } else {
        Some(s.subrange(start, skip_alphanumeric(s, start)))
    }
}

/// The frame with one instruction more: in its last arm, or before the
/// arms where it has none yet.
pub open spec fn push_node(f: FrameModel, n: Node) -> FrameModel {
    if f.arms.len() > 0 {
        let last = f.arms.last();
        FrameModel {
            keyword: f.keyword,
            header: f.header,
            body: f.body,
            arms: f.arms.drop_last().push((last.0, last.1.push(n))),
        }
    } else {
        FrameModel { keyword: f.keyword, header: f.header, body: f.body.push(n), arms: f.arms }
    }
}

/// The frame with a new, empty arm.
pub open spec fn push_arm(f: FrameModel, pattern: Seq<char>) -> FrameModel {
    FrameModel {
        keyword: f.keyword,
        header: f.header,
        body: f.body,
        arms: f.arms.push((pattern, Seq::empty())),
    }
}

/// The stack with one instruction more in its innermost block.
pub open spec fn emit(stack: Seq<FrameModel>, n: Node) -> Seq<FrameModel> {
    stack.drop_last().push(push_node(stack.last(), n))
}

/// The instruction that a block becomes when it ends.
pub open spec fn frame_node(f: FrameModel) -> Node {
    if f.arms.len() > 0 {
        Node::MatchScope(f.header, f.body, f.arms)
    } else {
        Node::Scope(f.header, f.body)
    }
}

/// The stack with its innermost block ended and handed to the block
/// around it.
pub open spec fn close_top(stack: Seq<FrameModel>) -> Seq<FrameModel> {
    emit(stack.drop_last(), frame_node(stack.last()))
}

/// In a `match` block that has no arm yet, literal text is not output.
pub open spec fn awaits_first_arm(f: FrameModel) -> bool {
    f.keyword == word_match() && f.arms.len() == 0
}

/// The frame of the template itself, with nothing in it.
pub open spec fn root_frame() -> FrameModel {
    FrameModel {
        keyword: Seq::empty(),
        header: Seq::empty(),
        body: Seq::empty(),
        arms: Seq::empty(),
    }
}

/// The frame that a block marker with body `header` and keyword `word`
/// opens. `else` opens a block that `if` closes; the code of a `block` is
/// empty.
pub open spec fn open_frame(header: Seq<char>, word: Seq<char>) -> FrameModel {
    let keyword = if word == word_else() {
        word_if()
    } else {
        word
    };
    FrameModel {
        keyword,
        header: if keyword == word_block() {
            Seq::empty()
        } else {
            header
        },
        body: Seq::empty(),
        arms: Seq::empty(),
    }
}

/// The program that the template `s` compiles to, from the position `pos`
/// on and with the blocks of `stack` open, the innermost last.
pub open spec fn run(s: Seq<char>, pos: int, stack: Seq<FrameModel>) -> Result<Seq<Node>, Failure>
    decreases s.len() - pos, stack.len(),
{
    let top = stack.last();
    proof {
        lemma_lexeme_advances(s, pos);
    }
    match lexeme_at(s, pos) {
        Lexeme::End => if stack.len() == 1 {
            Ok(top.body)
        } else {
            Err(Failure::UnclosedBlock { open: top.keyword })
        },
        Lexeme::Unterminated => Err(Failure::UnterminatedMarker),
        Lexeme::Literal { end } => if awaits_first_arm(top) {
            if all_whitespace(s.subrange(pos, end)) {
                run(s, end, stack)
            } else {
                Err(Failure::OutputBeforeFirstArm { text: s.subrange(pos, end) })
            }
        } else {
            run(s, end, emit(stack, Node::Literal(s.subrange(pos, end))))
        },
        Lexeme::Marker { kind, start, end, next } => {
            let body = s.subrange(start, end);
            match kind {
                MarkerKind::Value => run(s, next, emit(stack, Node::Interpolate(body))),
                MarkerKind::RawBlock => run(s, next, emit(stack, Node::RawEmit(body))),
                MarkerKind::Statement => run(s, next, emit(stack, Node::Exec(body))),
                MarkerKind::MatchBranch => if top.keyword == word_match() {
                    run(s, next, stack.drop_last().push(push_arm(top, body)))
                } else {
                    Err(Failure::BranchOutsideMatch)
                },
                MarkerKind::BlockClose => match word_of(body) {
                    None => Err(Failure::InvalidBlock),
                    Some(word) => if stack.len() <= 1 {
                        Err(Failure::CloseAtRoot { found: word })
                    } else if word != top.keyword {
                        Err(Failure::CloseMismatch { found: word, open: top.keyword })
                    } else {
                        run(s, next, close_top(stack))
                    },
                },
                MarkerKind::BlockOpen => match word_of(body) {
                    None => Err(Failure::InvalidBlock),
                    Some(word) => if word == word_else() && stack.len() >= 2 && top.keyword
                        == word_if() {
                        run(s, pos, close_top(stack))
                    } else {
                        run(s, next, stack.push(open_frame(body, word)))
                    },
                },
            }
        },
    }
}

/// The program that the template `s` compiles to, or the error that stops
/// its compilation.
pub open spec fn compiled(s: Seq<char>) -> Result<Seq<Node>, Failure> {
    run(s, 0, seq![root_frame()])
}

/// The mathematical form of a compilation's outcome.
pub open spec fn outcome(r: Result<Vec<Instruction>, CompileError>) -> Result<
    Seq<Node>,
    Failure,
> {
    match r {
        Ok(v) => Ok(models(v@)),
        Err(e) => Err(e.model()),
    }
}

/// A block that is open.
struct Frame {
    keyword: String,
    header: String,
    body: Vec<Instruction>,
    arms: Vec<Arm>,
}

impl Frame {
    spec fn model(self) -> FrameModel {
        FrameModel {
            keyword: self.keyword@,
            header: self.header@,
            body: models(self.body@),
            arms: arm_models(self.arms@),
        }
    }
}

spec fn frame_models(v: Seq<Frame>) -> Seq<FrameModel> {
    Seq::new(v.len(), |i: int| v[i].model())
}

/// Where the keyword of `chars[from..to]` stands, if it holds one.
fn word_range(chars: &Vec<char>, from: usize, to: usize) -> (r: Option<(usize, usize)>)
    requires
        from <= to <= chars@.len(),
    ensures
        match r {
            Some((start, end)) => from <= start <= end <= to && word_of(
                chars@.subrange(from as int, to as int),
            ) == Some(chars@.subrange(start as int, end as int)),
            None => word_of(chars@.subrange(from as int, to as int)) is None,
        },
{
    let ghost part = chars@.subrange(from as int, to as int);
    let mut start: usize = from;
    while start < to && is_whitespace(chars[start])
        invariant
            from <= start <= to <= chars@.len(),
            part == chars@.subrange(from as int, to as int),
            skip_whitespace(part, 0) == skip_whitespace(part, start - from),
        decreases to - start,
    {
        assert(part[start - from] == chars@[start as int]);
        start += 1;
    }
    if start >= to {
        return None;
    }
    assert(part[start - from] == chars@[start as int]);
    let mut end: usize = start;
    while end < to && is_alphanumeric(chars[end])
        invariant
            from <= start <= end <= to <= chars@.len(),
            part == chars@.subrange(from as int, to as int),
            skip_alphanumeric(part, start - from) == skip_alphanumeric(part, end - from),
        decreases to - end,
    {
        assert(part[end - from] == chars@[end as int]);
        end += 1;
    }
    proof {
        if end < to {
            assert(part[end - from] == chars@[end as int]);
        }
        assert(part.subrange(start - from, end - from) =~= chars@.subrange(
            start as int,
            end as int,
        ));
    }
    Some((start, end))
}

/// The keyword of a marker's body, if it holds one.
pub fn next_word(code: &str) -> (r: Option<String>)
    ensures
        match r {
            Some(w) => word_of(code@) == Some(w@),
            None => word_of(code@) is None,
        },
{
    let chars = to_chars(code);
    assert(chars@.subrange(0, chars@.len() as int) =~= code@);
    match word_range(&chars, 0, chars.len()) {
        Some((start, end)) => Some(slice_text(code, start, end)),
        None => None,
    }
}

fn word_is(word: &String, name: &str) -> (r: bool)
    ensures
        r == (word@ == name@),
{
    let other = name.to_owned();
    *word == other
}

/// Appends an instruction to the innermost open block.
fn emit_top(stack: &mut Vec<Frame>, ins: Instruction)
    requires
        old(stack)@.len() >= 1,
    ensures
        final(stack)@.len() == old(stack)@.len(),
        frame_models(final(stack)@) == emit(frame_models(old(stack)@), ins.model()),
{
    let ghost node = ins.model();
    let ghost before = frame_models(stack@);
    let mut top = stack.pop().unwrap();
    let ghost top_model = top.model();
    if top.arms.len() > 0 {
        let mut arm = top.arms.pop().unwrap();
        let ghost arm_model = arm.model();
        let ghost arms_left = top.arms@;
        proof {
            lemma_models_push(arm.body@, ins);
        }
        arm.body.push(ins);
        proof {
            lemma_arm_models_push(arms_left, arm);
            assert(arm_models(arms_left) =~= top_model.arms.drop_last());
        }
        top.arms.push(arm);
    } else {
        proof {
            lemma_models_push(top.body@, ins);
        }
        top.body.push(ins);
    }
    assert(top.model() == push_node(top_model, node));
    stack.push(top);
    assert(frame_models(stack@) =~= emit(before, node));
}

/// Starts a new arm in the innermost open block.
fn start_arm(stack: &mut Vec<Frame>, pattern: String)
    requires
        old(stack)@.len() >= 1,
    ensures
        final(stack)@.len() == old(stack)@.len(),
        frame_models(final(stack)@) == frame_models(old(stack)@).drop_last().push(
            push_arm(frame_models(old(stack)@).last(), pattern@),
        ),
{
    let ghost before = frame_models(stack@);
    let mut top = stack.pop().unwrap();
    let arm = Arm { pattern, body: Vec::new() };
    proof {
        lemma_arm_models_push(top.arms@, arm);
        assert(models(arm.body@) =~= Seq::<Node>::empty());
    }
    top.arms.push(arm);
    stack.push(top);
    assert(frame_models(stack@) =~= before.drop_last().push(push_arm(before.last(), pattern@)));
}

/// Ends the innermost open block and hands it to the block around it.
fn close_frame(stack: &mut Vec<Frame>)
    requires
        old(stack)@.len() >= 2,
    ensures
        final(stack)@.len() == old(stack)@.len() - 1,
        frame_models(final(stack)@) == close_top(frame_models(old(stack)@)),
{
    let ghost before = frame_models(stack@);
    let top = stack.pop().unwrap();
    assert(frame_models(stack@) =~= before.drop_last());
    let ghost top_model = top.model();
    let Frame { keyword, header, body, arms } = top;
    let ins = if arms.len() > 0 {
        Instruction::MatchScope(header, body, arms)
    } else {
        Instruction::Scope(header, body)
    };
    assert(ins.model() == frame_node(top_model));
    emit_top(stack, ins);
}

/// Compiles a template into its program.
///
/// Literal text, values, raw values and statements become instructions of
/// the innermost open block. A block marker opens a block and a close
/// marker with the same keyword ends it; `else` ends an `if` block and
/// opens the next; a branch marker starts an arm of a `match` block.
pub fn compile(text: &str) -> (r: Result<Vec<Instruction>, CompileError>)
    ensures
        outcome(r) == compiled(text@),
{
    let chars = to_chars(text);
    let mut stack: Vec<Frame> = Vec::new();
    stack.push(
        Frame { keyword: String::new(), header: String::new(), body: Vec::new(), arms: Vec::new() },
    );
    assert(frame_models(stack@) =~= seq![root_frame()]) by {
        assert(models(stack@[0].body@) =~= Seq::<Node>::empty());
        assert(arm_models(stack@[0].arms@) =~= Seq::<(Seq<char>, Seq<Node>)>::empty());
    }
    let mut pos: usize = 0;
    loop
        invariant
            chars@ == text@,
            pos <= chars@.len(),
            stack@.len() >= 1,
            compiled(text@) == run(chars@, pos as int, frame_models(stack@)),
        decreases chars@.len() - pos, stack@.len(),
    {
        let ghost frames = frame_models(stack@);
        proof {
            lemma_lexeme_advances(chars@, pos as int);
            assert(frames.last() == stack@[stack@.len() - 1].model());
        }
        match scan(&chars, pos) {
            Token::End => {
                if stack.len() != 1 {
                    let open = stack[stack.len() - 1].keyword.clone();
                    return Err(CompileError::UnclosedBlock { open });
                }
                let root = stack.pop().unwrap();
                return Ok(root.body);
            },
            Token::Unterminated => {
                return Err(CompileError::UnterminatedMarker);
            },
            Token::Literal { end } => {
                let top = &stack[stack.len() - 1];
                if word_is(&top.keyword, "match") && top.arms.len() == 0 {
                    if !is_blank(&chars, pos, end) {
                        return Err(
                            CompileError::OutputBeforeFirstArm { text: slice_text(text, pos, end) },
                        );
                    }
                } else {
                    emit_top(&mut stack, Instruction::Literal(slice_text(text, pos, end)));
                }
                pos = end;
            },
            Token::Marker { kind, start, end, next } => {
                match kind {
                    MarkerKind::Value => {
                        emit_top(&mut stack, Instruction::Interpolate(slice_text(text, start, end)));
                        pos = next;
                    },
                    MarkerKind::RawBlock => {
                        emit_top(&mut stack, Instruction::RawEmit(slice_text(text, start, end)));
                        pos = next;
                    },
                    MarkerKind::Statement => {
                        emit_top(&mut stack, Instruction::Exec(slice_text(text, start, end)));
                        pos = next;
                    },
                    MarkerKind::MatchBranch => {
                        if !word_is(&stack[stack.len() - 1].keyword, "match") {
                            return Err(CompileError::BranchOutsideMatch);
                        }
                        start_arm(&mut stack, slice_text(text, start, end));
                        pos = next;
                    },
                    MarkerKind::BlockClose => {
                        match word_range(&chars, start, end) {
                            None => {
                                return Err(CompileError::InvalidBlock);
                            },
                            Some((from, to)) => {
                                let found = slice_text(text, from, to);
                                if stack.len() <= 1 {
                                    return Err(CompileError::CloseAtRoot { found });
                                }
                                if found != stack[stack.len() - 1].keyword {
                                    let open = stack[stack.len() - 1].keyword.clone();
                                    return Err(CompileError::CloseMismatch { found, open });
                                }
                                close_frame(&mut stack);
                                pos = next;
                            },
                        }
                    },
                    MarkerKind::BlockOpen => {
                        match word_range(&chars, start, end) {
                            None => {
                                return Err(CompileError::InvalidBlock);
                            },
                            Some((from, to)) => {
                                let word = slice_text(text, from, to);
                                let is_else = word_is(&word, "else");
                                if is_else && stack.len() >= 2 && word_is(
                                    &stack[stack.len() - 1].keyword,
                                    "if",
                                ) {
                                    close_frame(&mut stack);
                                } else {
                                    let keyword = if is_else {
                                        "if".to_owned()
                                    } else {
                                        word
                                    };
                                    let header = if word_is(&keyword, "block") {
                                        String::new()
                                    } else {
                                        slice_text(text, start, end)
                                    };
                                    let frame = Frame {
                                        keyword,
                                        header,
                                        body: Vec::new(),
                                        arms: Vec::new(),
                                    };
                                    proof {
                                        assert(models(frame.body@) =~= Seq::<Node>::empty());
                                        assert(arm_models(frame.arms@) =~= Seq::<
                                            (Seq<char>, Seq<Node>),
                                        >::empty());
                                        assert(frame.model() == open_frame(
                                            chars@.subrange(start as int, end as int),
                                            word@,
                                        ));
                                    }
                                    stack.push(frame);
                                    assert(frame_models(stack@) =~= frames.push(
                                        open_frame(
                                            chars@.subrange(start as int, end as int),
                                            word@,
                                        ),
                                    ));
                                    pos = next;
                                }
                            },
                        }
                    },
                }
            },
        }
    }
}

} // verus!
