//! The marker scanner: finds the next marker in a template and classifies it
//! by its sigil.
use vstd::prelude::*;

verus! {

/// What a marker stands for, decided by its sigil.
#[derive(Debug, Clone, Copy, PartialEq, Eq, Structural)]
pub enum MarkerKind {
    /// `#`: opens a block.
    BlockOpen,
    /// `{`: an expression emitted without escaping, closed by `}}}`.
    RawBlock,
    /// `!`: a statement, run for its effect.
    Statement,
    /// `=`: starts an arm of a `match` block.
    MatchBranch,
    /// `/`: closes a block.
    BlockClose,
    /// Any other character: an expression, escaped and emitted.
    Value,
}

/// What the scanner finds at a position of a template.
#[derive(Debug, Clone, Copy, PartialEq, Eq, Structural)]
pub enum Token {
    /// The template ends here.
    End,
    /// Literal text from the position up to `end`.
    Literal { end: usize },
    /// A marker whose body is `start..end`; scanning resumes at `next`.
    Marker { kind: MarkerKind, start: usize, end: usize, next: usize },
    /// A marker opens here and is never closed.
    Unterminated,
}

/// A token with mathematical positions.
pub ghost enum Lexeme {
    End,
    Literal { end: int },
    Marker { kind: MarkerKind, start: int, end: int, next: int },
    Unterminated,
}

impl Token {
    pub open spec fn model(self) -> Lexeme {
        match self {
            Token::End => Lexeme::End,
            Token::Literal { end } => Lexeme::Literal { end: end as int },
            Token::Marker { kind, start, end, next } => Lexeme::Marker {
                kind,
                start: start as int,
                end: end as int,
                next: next as int,
            },
            Token::Unterminated => Lexeme::Unterminated,
        }
    }
}

/// `s` holds `n` times the character `c` from `i` on.
pub open spec fn run_at(s: Seq<char>, i: int, c: char, n: nat) -> bool
    decreases n,
{
    if n == 0 {
        0 <= i <= s.len()
    } else {
        0 <= i < s.len() && s[i] == c && run_at(s, i + 1, c, (n - 1) as nat)
    }
}

/// The first position from `from` on at which `s` holds `n` times `c`.
pub open spec fn find_run(s: Seq<char>, from: int, c: char, n: nat) -> Option<int>
    decreases s.len() - from,
{
    if from < 0 || from + n > s.len() {
        None
    } else if run_at(s, from, c, n) {
        Some(from)
    } else {
        find_run(s, from + 1, c, n)
    }
}

/// A space or one of the control characters from tab to carriage return:
/// what may stand between a marker's opening braces and its sigil.
pub open spec fn is_padding(c: char) -> bool {
    c == ' ' || 9 <= c as u32 <= 13
}

/// The first position from `from` on that holds no padding, or the length
/// of `s`.
pub open spec fn skip_padding(s: Seq<char>, from: int) -> int
    decreases s.len() - from,
{
    if from < 0 || from >= s.len() {
        s.len() as int
    } else if is_padding(s[from]) {
        skip_padding(s, from + 1)
    } else {
        from
    }
}

/// The position behind one line terminator at `pos`: a carriage return, a
/// line feed, or both in that order, each only if it is there.
pub open spec fn after_eol(s: Seq<char>, pos: int) -> int {
    let p = if 0 <= pos < s.len() && s[pos] == '\r' {
        pos + 1
    } else {
        pos
    };
    if 0 <= p < s.len() && s[p] == '\n' {
        p + 1
    } else {
        p
    }
}

pub open spec fn kind_of(sigil: char) -> MarkerKind {
    if sigil == '#' {
        MarkerKind::BlockOpen
    } else if sigil == '{' {
        MarkerKind::RawBlock
    } else if sigil == '!' {
        MarkerKind::Statement
    } else if sigil == '=' {
        MarkerKind::MatchBranch
    } else if sigil == '/' {
        MarkerKind::BlockClose
    } else {
        MarkerKind::Value
    }
}

/// The marker that opens at `pos`: its sigil is the first character behind
/// the braces that is no padding. The body starts behind the sigil (at it,
/// for a value) and runs up to the first `}}` (`}}}` for a raw block). A
/// statement, block or branch marker swallows one line terminator behind it.
pub open spec fn marker_at(s: Seq<char>, pos: int) -> Lexeme {
    let q = skip_padding(s, pos + 2);
    if q >= s.len() {
        Lexeme::Unterminated
    } else {
        let kind = kind_of(s[q]);
        let start = if kind == MarkerKind::Value {
            q
        } else {
            q + 1
        };
        let width: nat = if kind == MarkerKind::RawBlock {
            3
        } else {
            2
        };
        match find_run(s, start, '}', width) {
            None => Lexeme::Unterminated,
            Some(end) => Lexeme::Marker {
                kind,
                start,
                end,
                next: if kind == MarkerKind::RawBlock || kind == MarkerKind::Value {
                    end + width
                } else {
                    after_eol(s, end + width)
                },
            },
        }
    }
}

/// What stands at `pos`: the end, literal text up to the next `{{` (or up
/// to the end), or the marker that opens there.
pub open spec fn lexeme_at(s: Seq<char>, pos: int) -> Lexeme {
    if pos >= s.len() {
        Lexeme::End
    } else {
        match find_run(s, pos, '{', 2) {
            None => Lexeme::Literal { end: s.len() as int },
            Some(open) => if open > pos {
                Lexeme::Literal { end: open }
            } else {
                marker_at(s, pos)
            },
        }
    }
}

/// Where a run is found, it stands at or behind `from` and inside `s`, and
/// none stands between.
pub proof fn lemma_find_run(s: Seq<char>, from: int, c: char, n: nat)
    requires
        0 <= from,
    ensures
        match find_run(s, from, c, n) {
            Some(i) => from <= i && i + n <= s.len() && run_at(s, i, c, n) && forall|j: int|
                from <= j < i ==> !run_at(s, j, c, n),
            None => forall|j: int| from <= j && j + n <= s.len() ==> !run_at(s, j, c, n),
        },
    decreases s.len() - from,
{
    if from + n > s.len() {
    } else if run_at(s, from, c, n) {
    } else {
        lemma_find_run(s, from + 1, c, n);
    }
}

/// Padding is skipped forwards, never beyond the end.
pub proof fn lemma_skip_padding(s: Seq<char>, from: int)
    requires
        0 <= from <= s.len(),
    ensures
        from <= skip_padding(s, from) <= s.len(),
    decreases s.len() - from,
{
    if from < s.len() && is_padding(s[from]) {
        lemma_skip_padding(s, from + 1);
    }
}

/// Scanning moves forwards: a literal is not empty, and a marker's body and
/// the position behind it lie behind its opening braces and inside the text.
pub proof fn lemma_lexeme_advances(s: Seq<char>, pos: int)
    ensures
        match lexeme_at(s, pos) {
            Lexeme::End => pos >= s.len(),
            Lexeme::Literal { end } => pos < end <= s.len(),
            Lexeme::Marker { kind, start, end, next } => pos + 2 <= start <= end && end < next
                <= s.len(),
            Lexeme::Unterminated => pos < s.len(),
        },
{
    if 0 <= pos < s.len() {
        lemma_find_run(s, pos, '{', 2);
        if find_run(s, pos, '{', 2) == Some(pos) {
            lemma_skip_padding(s, pos + 2);
            let q = skip_padding(s, pos + 2);
            if q < s.len() {
                lemma_find_run(s, q, '}', 2);
                lemma_find_run(s, q + 1, '}', 2);
                lemma_find_run(s, q + 1, '}', 3);
            }
        }
    }
}

fn has_run(chars: &Vec<char>, i: usize, c: char, n: usize) -> (r: bool)
    requires
        i <= chars@.len(),
    ensures
        r == run_at(chars@, i as int, c, n as nat),
    decreases n,
{
    if n == 0 {
        true
    } else if i < chars.len() && chars[i] == c {
        has_run(chars, i + 1, c, n - 1)
    } else {
        false
    }
}

fn find(chars: &Vec<char>, from: usize, c: char, n: usize) -> (r: Option<usize>)
    requires
        from <= chars@.len(),
        n >= 1,
    ensures
        match r {
            Some(i) => find_run(chars@, from as int, c, n as nat) == Some(i as int),
            None => find_run(chars@, from as int, c, n as nat) is None,
        },
{
    let mut i: usize = from;
    while n <= chars.len() - i
        invariant
            from <= i <= chars@.len(),
            find_run(chars@, from as int, c, n as nat) == find_run(chars@, i as int, c, n as nat),
        decreases chars@.len() - i,
    {
        if has_run(chars, i, c, n) {
            return Some(i);
        }
        i += 1;
    }
    None
}

fn padding(c: char) -> (r: bool)
    ensures
        r == is_padding(c),
{
    let code: u32 = c as u32;
    c == ' ' || (9 <= code && code <= 13)
}

fn skip_eol(chars: &Vec<char>, pos: usize) -> (r: usize)
    requires
        pos <= chars@.len(),
    ensures
        r == after_eol(chars@, pos as int),
        pos <= r <= chars@.len(),
{
    let mut p: usize = pos;
    if p < chars.len() && chars[p] == '\r' {
        p += 1;
    }
    if p < chars.len() && chars[p] == '\n' {
        p += 1;
    }
    p
}

fn classify(sigil: char) -> (r: MarkerKind)
    ensures
        r == kind_of(sigil),
{
    if sigil == '#' {
        MarkerKind::BlockOpen
    } else if sigil == '{' {
        MarkerKind::RawBlock
    } else if sigil == '!' {
        MarkerKind::Statement
    } else if sigil == '=' {
        MarkerKind::MatchBranch
    } else if sigil == '/' {
        MarkerKind::BlockClose
    } else {
        MarkerKind::Value
    }
}

/// Scans the template `chars` at `pos`.
pub fn scan(chars: &Vec<char>, pos: usize) -> (t: Token)
    ensures
        t.model() == lexeme_at(chars@, pos as int),
{
    proof {
        lemma_lexeme_advances(chars@, pos as int);
    }
    if pos >= chars.len() {
        return Token::End;
    }
    match find(chars, pos, '{', 2) {
        None => Token::Literal { end: chars.len() },
        Some(open) => {
            proof {
                lemma_find_run(chars@, pos as int, '{', 2);
            }
            if open > pos {
                return Token::Literal { end: open };
            }
            let mut q: usize = pos + 2;
            while q < chars.len() && padding(chars[q])
                invariant
                    pos + 2 <= q <= chars@.len(),
                    skip_padding(chars@, pos + 2) == skip_padding(chars@, q as int),
                decreases chars@.len() - q,
            {
                q += 1;
            }
            if q >= chars.len() {
                return Token::Unterminated;
            }
            let kind = classify(chars[q]);
            let start: usize = match kind {
                MarkerKind::Value => q,
                _ => q + 1,
            };
            let width: usize = match kind {
                MarkerKind::RawBlock => 3,
                _ => 2,
            };
            match find(chars, start, '}', width) {
                None => Token::Unterminated,
                Some(end) => {
                    proof {
                        lemma_find_run(chars@, start as int, '}', width as nat);
                    }
                    let next: usize = match kind {
                        MarkerKind::RawBlock | MarkerKind::Value => end + width,
                        _ => skip_eol(chars, end + width),
                    };
                    Token::Marker { kind, start, end, next }
                },
            }
        },
    }
}

} // verus!
