//! Which templates compile: the well-formed ones, and no others.
use vstd::prelude::*;
use crate::compiler::{
    close_top, compiled, emit, open_frame, push_arm, root_frame, run, word_else, word_if,
    word_match, word_of, FrameModel,
};
use crate::instruction::Node;
use crate::scanner::{lemma_lexeme_advances, lexeme_at, Lexeme, MarkerKind};
use crate::text::all_whitespace;

verus! {

/// What well-formedness asks of an open block: its keyword, and whether
/// an arm has begun in it.
pub ghost struct OpenBlock {
    pub keyword: Seq<char>,
    pub has_arm: bool,
}

/// The template `s` is well-formed from `pos` on, with the blocks of
/// `open` open, the innermost last and the template itself first:
/// every marker is closed; every block marker holds a keyword; every close
/// marker names the innermost open block; a branch stands in a `match`
/// block only; text before the first arm of a `match` block is blank; and
/// at the end no block is open.
pub open spec fn well_formed_from(s: Seq<char>, pos: int, open: Seq<OpenBlock>) -> bool
    decreases s.len() - pos, open.len(),
{
    let top = open.last();
    proof {
        lemma_lexeme_advances(s, pos);
    }
    match lexeme_at(s, pos) {
        Lexeme::End => open.len() == 1,
        Lexeme::Unterminated => false,
        Lexeme::Literal { end } => {
            &&& top.keyword == word_match() && !top.has_arm ==> all_whitespace(
                s.subrange(pos, end),
            )
            &&& well_formed_from(s, end, open)
        },
        Lexeme::Marker { kind, start, end, next } => {
            let body = s.subrange(start, end);
            match kind {
                MarkerKind::Value | MarkerKind::RawBlock | MarkerKind::Statement => well_formed_from(
                    s,
                    next,
                    open,
                ),
                MarkerKind::MatchBranch => {
                    &&& top.keyword == word_match()
                    &&& well_formed_from(
                        s,
                        next,
                        open.drop_last().push(OpenBlock { keyword: top.keyword, has_arm: true }),
                    )
                },
                MarkerKind::BlockClose => match word_of(body) {
                    None => false,
                    Some(word) => {
                        &&& open.len() >= 2
                        &&& word == top.keyword
                        &&& well_formed_from(s, next, open.drop_last())
                    },
                },
                MarkerKind::BlockOpen => match word_of(body) {
                    None => false,
                    Some(word) => if word == word_else() && open.len() >= 2 && top.keyword
                        == word_if() {
                        well_formed_from(s, pos, open.drop_last())
                    } else {
                        well_formed_from(
                            s,
                            next,
                            open.push(
                                OpenBlock {
                                    keyword: if word == word_else() {
                                        word_if()
                                    } else {
                                        word
                                    },
                                    has_arm: false,
                                },
                            ),
                        )
                    },
                },
            }
        },
    }
}

/// The template `s` is well-formed.
pub open spec fn well_formed(s: Seq<char>) -> bool {
    well_formed_from(s, 0, seq![OpenBlock { keyword: Seq::empty(), has_arm: false }])
}

/// What well-formedness sees of the open blocks.
pub open spec fn shape(stack: Seq<FrameModel>) -> Seq<OpenBlock> {
    Seq::new(
        stack.len(),
        |i: int| OpenBlock { keyword: stack[i].keyword, has_arm: stack[i].arms.len() > 0 },
    )
}

/// Compilation from a position on succeeds exactly where the template is
/// well-formed from there on, whatever the open blocks hold so far.
pub proof fn lemma_run_succeeds_iff_well_formed(s: Seq<char>, pos: int, stack: Seq<FrameModel>)
    requires
        stack.len() >= 1,
    ensures
        run(s, pos, stack) is Ok <==> well_formed_from(s, pos, shape(stack)),
    decreases s.len() - pos, stack.len(),
{
    let top = stack.last();
    let open = shape(stack);
    assert(open.last() == OpenBlock { keyword: top.keyword, has_arm: top.arms.len() > 0 });
    lemma_lexeme_advances(s, pos);
    match lexeme_at(s, pos) {
        Lexeme::End => {},
        Lexeme::Unterminated => {},
        Lexeme::Literal { end } => {
            let next_stack = emit(stack, Node::Literal(s.subrange(pos, end)));
            assert(shape(next_stack) =~= open);
            lemma_run_succeeds_iff_well_formed(s, end, stack);
            lemma_run_succeeds_iff_well_formed(s, end, next_stack);
        },
        Lexeme::Marker { kind, start, end, next } => {
            let body = s.subrange(start, end);
            match kind {
                MarkerKind::Value => {
                    let next_stack = emit(stack, Node::Interpolate(body));
                    assert(shape(next_stack) =~= open);
                    lemma_run_succeeds_iff_well_formed(s, next, next_stack);
                },
                MarkerKind::RawBlock => {
                    let next_stack = emit(stack, Node::RawEmit(body));
                    assert(shape(next_stack) =~= open);
                    lemma_run_succeeds_iff_well_formed(s, next, next_stack);
                },
                MarkerKind::Statement => {
                    let next_stack = emit(stack, Node::Exec(body));
                    assert(shape(next_stack) =~= open);
                    lemma_run_succeeds_iff_well_formed(s, next, next_stack);
                },
                MarkerKind::MatchBranch => {
                    let next_stack = stack.drop_last().push(push_arm(top, body));
                    assert(shape(next_stack) =~= open.drop_last().push(
                        OpenBlock { keyword: top.keyword, has_arm: true },
                    ));
                    lemma_run_succeeds_iff_well_formed(s, next, next_stack);
                },
                MarkerKind::BlockClose => {
                    if stack.len() >= 2 {
                        assert(shape(close_top(stack)) =~= open.drop_last());
                        lemma_run_succeeds_iff_well_formed(s, next, close_top(stack));
                    }
                },
                MarkerKind::BlockOpen => {
                    match word_of(body) {
                        None => {},
                        Some(word) => {
                            if word == word_else() && stack.len() >= 2 && top.keyword
                                == word_if() {
                                assert(shape(close_top(stack)) =~= open.drop_last());
                                lemma_run_succeeds_iff_well_formed(s, pos, close_top(stack));
                            } else {
                                let next_stack = stack.push(open_frame(body, word));
                                assert(shape(next_stack) =~= open.push(
                                    OpenBlock {
                                        keyword: if word == word_else() {
                                            word_if()
                                        } else {
                                            word
                                        },
                                        has_arm: false,
                                    },
                                ));
                                lemma_run_succeeds_iff_well_formed(s, next, next_stack);
                            }
                        },
                    }
                },
            }
        },
    }
}

/// A template compiles exactly where it is well-formed.
pub proof fn lemma_compiles_iff_well_formed(s: Seq<char>)
    ensures
        compiled(s) is Ok <==> well_formed(s),
{
    let stack = seq![root_frame()];
    assert(shape(stack) =~= seq![OpenBlock { keyword: Seq::empty(), has_arm: false }]);
    lemma_run_succeeds_iff_well_formed(s, 0, stack);
}

} // verus!
