//! What holds of every template.
use vstd::prelude::*;
use crate::compiler::{
    awaits_first_arm, close_top, compiled, emit, open_frame, outcome, push_arm, push_node,
    root_frame, run, word_else, word_if, word_match, word_of, CompileError, Failure, FrameModel,
};
use crate::instruction::{Instruction, Node};
use crate::scanner::{
    find_run, kind_of, lemma_find_run, lemma_skip_padding, lexeme_at, marker_at, run_at,
    skip_padding, Lexeme, MarkerKind,
};

verus! {

/// The empty template compiles to the empty program.
pub proof fn lemma_empty_template()
    ensures
        compiled(Seq::empty()) == Ok::<Seq<Node>, Failure>(Seq::empty()),
{
    let s = Seq::<char>::empty();
    assert(lexeme_at(s, 0) == Lexeme::End);
    assert(seq![root_frame()].last() == root_frame());
}

/// A template without a marker compiles, to one literal that holds all of
/// its text.
pub proof fn lemma_plain_template(s: Seq<char>)
    requires
        s.len() > 0,
        find_run(s, 0, '{', 2) is None,
    ensures
        compiled(s) == Ok::<Seq<Node>, Failure>(seq![Node::Literal(s)]),
{
    reveal_strlit("match");
    let stack = seq![root_frame()];
    assert(stack.last() == root_frame());
    assert(lexeme_at(s, 0) == Lexeme::Literal { end: s.len() as int });
    assert(s.subrange(0, s.len() as int) =~= s);
    let after = emit(stack, Node::Literal(s));
    assert(after.len() == 1);
    assert(after.last().body =~= seq![Node::Literal(s)]);
    assert(lexeme_at(s, s.len() as int) == Lexeme::End);
    assert(run(s, s.len() as int, after) == Ok::<Seq<Node>, Failure>(after.last().body));
    assert(word_match().len() == 5);
    assert(!awaits_first_arm(stack.last()));
    assert(run(s, 0, stack) == run(s, s.len() as int, after));
}

/// A run of three holds a run of two, one position on.
proof fn lemma_run_of_three(s: Seq<char>, i: int, c: char)
    requires
        run_at(s, i, c, 3),
    ensures
        run_at(s, i + 1, c, 2),
{
    reveal_with_fuel(run_at, 4);
}

/// Where a marker opens and no `}}` follows its braces, the scanner
/// reports it as unterminated, whatever its kind.
pub proof fn lemma_open_marker_unterminated(s: Seq<char>, pos: int)
    requires
        0 <= pos,
        find_run(s, pos, '{', 2) == Some(pos),
        find_run(s, pos + 2, '}', 2) is None,
    ensures
        lexeme_at(s, pos) == Lexeme::Unterminated,
{
    lemma_find_run(s, pos, '{', 2);
    lemma_find_run(s, pos + 2, '}', 2);
    lemma_skip_padding(s, pos + 2);
    let q = skip_padding(s, pos + 2);
    if q < s.len() {
        let kind = kind_of(s[q]);
        let start = if kind == MarkerKind::Value {
            q
        } else {
            q + 1
        };
        lemma_find_run(s, start, '}', 2);
        lemma_find_run(s, start, '}', 3);
        if find_run(s, start, '}', 3) is Some {
            lemma_run_of_three(s, find_run(s, start, '}', 3).unwrap(), '}');
        }
    }
}

/// Compilation stops with `UnterminatedMarker` where it meets a marker
/// that is never closed, whatever blocks are open there.
pub proof fn lemma_unterminated_stops(s: Seq<char>, pos: int, stack: Seq<FrameModel>)
    requires
        0 <= pos,
        find_run(s, pos, '{', 2) == Some(pos),
        find_run(s, pos + 2, '}', 2) is None,
    ensures
        run(s, pos, stack) == Err::<Seq<Node>, Failure>(Failure::UnterminatedMarker),
{
    lemma_open_marker_unterminated(s, pos);
}

/// A template whose first marker is never closed does not compile: the
/// error is `UnterminatedMarker`, and no program comes out of the text
/// before the marker.
pub proof fn lemma_unterminated_template(s: Seq<char>, open: int)
    requires
        find_run(s, 0, '{', 2) == Some(open),
        find_run(s, open + 2, '}', 2) is None,
    ensures
        compiled(s) == Err::<Seq<Node>, Failure>(Failure::UnterminatedMarker),
{
    reveal_strlit("match");
    lemma_find_run(s, 0, '{', 2);
    let stack = seq![root_frame()];
    assert(stack.last() == root_frame());
    assert(find_run(s, open, '{', 2) == Some(open));
    if open > 0 {
        assert(lexeme_at(s, 0) == Lexeme::Literal { end: open });
        assert(word_match().len() == 5);
    assert(!awaits_first_arm(stack.last()));
        assert(run(s, 0, stack) == run(s, open, emit(stack, Node::Literal(s.subrange(0, open)))));
        lemma_unterminated_stops(s, open, emit(stack, Node::Literal(s.subrange(0, open))));
    } else {
        lemma_unterminated_stops(s, 0, stack);
    }
}

/// A raw block is copied as it stands: where `{{{` opens at `pos` and the
/// first `}}}` behind it stands at `close`, all that lies between, markers
/// too, becomes one `RawEmit`, and compilation goes on behind the `}}}`.
pub proof fn lemma_raw_block_verbatim(s: Seq<char>, pos: int, close: int, stack: Seq<FrameModel>)
    requires
        0 <= pos,
        run_at(s, pos, '{', 3),
        find_run(s, pos + 3, '}', 3) == Some(close),
    ensures
        lexeme_at(s, pos) == (Lexeme::Marker {
            kind: MarkerKind::RawBlock,
            start: pos + 3,
            end: close,
            next: close + 3,
        }),
        run(s, pos, stack) == run(
            s,
            close + 3,
            emit(stack, Node::RawEmit(s.subrange(pos + 3, close))),
        ),
{
    reveal_with_fuel(run_at, 4);
    assert(run_at(s, pos, '{', 2));
    assert(find_run(s, pos, '{', 2) == Some(pos));
    assert(skip_padding(s, pos + 2) == pos + 2);
    assert(lexeme_at(s, pos) == marker_at(s, pos));
}

/// Else-chaining: where an `else` marker meets an open `if` block inside
/// a block that is no `if` (or inside none), the `if` block ends there,
/// and the marker opens the next block of the chain, which the close
/// marker of `if` ends.
pub proof fn lemma_else_chains(
    s: Seq<char>,
    pos: int,
    start: int,
    end: int,
    next: int,
    stack: Seq<FrameModel>,
)
    requires
        stack.len() >= 2,
        lexeme_at(s, pos) == (Lexeme::Marker { kind: MarkerKind::BlockOpen, start, end, next }),
        word_of(s.subrange(start, end)) == Some(word_else()),
        stack.last().keyword == word_if(),
        stack.len() == 2 || stack[stack.len() - 2].keyword != word_if(),
    ensures
        open_frame(s.subrange(start, end), word_else()).keyword == word_if(),
        run(s, pos, stack) == run(
            s,
            next,
            close_top(stack).push(open_frame(s.subrange(start, end), word_else())),
        ),
{
    let closed = close_top(stack);
    assert(closed.len() == stack.len() - 1);
    assert(closed.last().keyword == stack[stack.len() - 2].keyword);
    assert(run(s, pos, stack) == run(s, pos, closed));
}

/// Match grouping: a branch marker in a `match` block starts a new arm
/// behind the arms that are there, and the instruction that follows goes
/// into that arm and into no other.
pub proof fn lemma_branch_starts_arm(
    s: Seq<char>,
    pos: int,
    start: int,
    end: int,
    next: int,
    stack: Seq<FrameModel>,
    following: Node,
)
    requires
        stack.len() >= 1,
        lexeme_at(s, pos) == (Lexeme::Marker { kind: MarkerKind::MatchBranch, start, end, next }),
        stack.last().keyword == word_match(),
    ensures
        run(s, pos, stack) == run(
            s,
            next,
            stack.drop_last().push(push_arm(stack.last(), s.subrange(start, end))),
        ),
        push_arm(stack.last(), s.subrange(start, end)).arms == stack.last().arms.push(
            (s.subrange(start, end), Seq::<Node>::empty()),
        ),
        push_node(push_arm(stack.last(), s.subrange(start, end)), following).arms
            == stack.last().arms.push((s.subrange(start, end), seq![following])),
        push_node(push_arm(stack.last(), s.subrange(start, end)), following).body
            == stack.last().body,
{
    let top = stack.last();
    let pattern = s.subrange(start, end);
    let started = push_arm(top, pattern);
    assert(started.arms.drop_last() =~= top.arms);
    assert(Seq::<Node>::empty().push(following) =~= seq![following]);
}

/// Compilation is a function of the text: two compilations of one
/// template have the same outcome.
pub proof fn lemma_compile_deterministic(
    a: Seq<char>,
    b: Seq<char>,
    first: Result<Vec<Instruction>, CompileError>,
    second: Result<Vec<Instruction>, CompileError>,
)
    requires
        a == b,
        outcome(first) == compiled(a),
        outcome(second) == compiled(b),
    ensures
        outcome(first) == outcome(second),
{
}

} // verus!
