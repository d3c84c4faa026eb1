use aresty::compiler::{compile, next_word, CompileError};
use aresty::instruction::{Arm, Instruction};
use aresty::scanner::{scan, MarkerKind, Token};
use aresty::text::{is_blank, to_chars};

fn lit(s: &str) -> Instruction {
    Instruction::Literal(s.to_string())
}

fn val(s: &str) -> Instruction {
    Instruction::Interpolate(s.to_string())
}

fn scope(header: &str, body: Vec<Instruction>) -> Instruction {
    Instruction::Scope(header.to_string(), body)
}

fn arm(pattern: &str, body: Vec<Instruction>) -> Arm {
    Arm { pattern: pattern.to_string(), body }
}

#[test]
fn empty_template_compiles_to_nothing() {
    assert_eq!(compile(""), Ok(vec![]));
}

#[test]
fn text_without_markers_is_one_literal() {
    assert_eq!(compile("Hello, world } { }}"), Ok(vec![lit("Hello, world } { }}")]));
}

#[test]
fn value_marker_keeps_its_sigil_and_its_spaces() {
    assert_eq!(
        compile("a {{ name }} b{{x}}"),
        Ok(vec![lit("a "), val("name "), lit(" b"), val("x")])
    );
}

#[test]
fn value_marker_does_not_swallow_a_line_end() {
    assert_eq!(compile("{{x}}\r\ny"), Ok(vec![val("x"), lit("\r\ny")]));
}

#[test]
fn statement_swallows_one_line_terminator() {
    assert_eq!(
        compile("{{! let a = 1 }}\r\n\r\nx"),
        Ok(vec![Instruction::Exec(" let a = 1 ".to_string()), lit("\r\nx")])
    );
    assert_eq!(
        compile("{{!f()}}\n\nx"),
        Ok(vec![Instruction::Exec("f()".to_string()), lit("\nx")])
    );
    assert_eq!(
        compile("{{!f()}}\rx"),
        Ok(vec![Instruction::Exec("f()".to_string()), lit("x")])
    );
}

#[test]
fn padding_before_the_sigil_is_skipped() {
    assert_eq!(
        compile("{{ \t\n\r#if a}}x{{\t/if}}"),
        Ok(vec![scope("if a", vec![lit("x")])])
    );
}

#[test]
fn raw_block_is_copied_up_to_the_first_three_braces() {
    assert_eq!(
        compile("{{{ a < b }}}"),
        Ok(vec![Instruction::RawEmit(" a < b ".to_string())])
    );
    assert_eq!(
        compile("<{{{ x {{y}} {{#if}} }}}>}}}"),
        Ok(vec![lit("<"), Instruction::RawEmit(" x {{y}} {{#if}} ".to_string()), lit(">}}}")])
    );
    assert_eq!(
        compile("{{{a}}}}"),
        Ok(vec![Instruction::RawEmit("a".to_string()), lit("}")])
    );
}

#[test]
fn raw_block_does_not_swallow_a_line_end() {
    assert_eq!(
        compile("{{{a}}}\nx"),
        Ok(vec![Instruction::RawEmit("a".to_string()), lit("\nx")])
    );
}

#[test]
fn block_holds_its_body() {
    assert_eq!(
        compile("{{#for i in ints}}\n{{i}},{{/for}}\n."),
        Ok(vec![scope("for i in ints", vec![val("i"), lit(",")]), lit(".")])
    );
}

#[test]
fn plain_block_has_no_code() {
    assert_eq!(compile("{{#block}}x{{/block}}"), Ok(vec![scope("", vec![lit("x")])]));
}

#[test]
fn blocks_nest() {
    assert_eq!(
        compile("{{#if a}}{{#while b}}x{{/while}}y{{/if}}"),
        Ok(vec![scope("if a", vec![scope("while b", vec![lit("x")]), lit("y")])])
    );
}

#[test]
fn else_ends_an_if_and_opens_the_next_block() {
    assert_eq!(
        compile("{{#if a}}X{{#else}}Z{{/if}}"),
        Ok(vec![scope("if a", vec![lit("X")]), scope("else", vec![lit("Z")])])
    );
}

#[test]
fn else_if_chain_has_one_block_per_branch() {
    assert_eq!(
        compile("{{#if A}}X{{#else if B}}Y{{#else}}Z{{/if}}"),
        Ok(vec![
            scope("if A", vec![lit("X")]),
            scope("else if B", vec![lit("Y")]),
            scope("else", vec![lit("Z")]),
        ])
    );
}

#[test]
fn else_ends_every_if_around_it() {
    assert_eq!(
        compile("{{#if A}}X{{#else}}{{#if B}}Y{{#else}}Z{{/if}}{{/if}}"),
        Err(CompileError::CloseAtRoot { found: "if".to_string() })
    );
    assert_eq!(
        compile("{{#if A}}X{{#else}}{{#if B}}Y{{#else}}Z{{/if}}"),
        Ok(vec![
            scope("if A", vec![lit("X")]),
            scope("else", vec![scope("if B", vec![lit("Y")])]),
            scope("else", vec![lit("Z")]),
        ])
    );
}

#[test]
fn else_outside_an_if_opens_a_block_that_if_closes() {
    assert_eq!(compile("{{#else}}x{{/if}}"), Ok(vec![scope("else", vec![lit("x")])]));
    assert_eq!(
        compile("{{#for a in b}}{{#else}}x{{/if}}{{/for}}"),
        Ok(vec![scope("for a in b", vec![scope("else", vec![lit("x")])])])
    );
}

#[test]
fn match_block_groups_its_arms_in_source_order() {
    assert_eq!(
        compile("{{#match x}}\n  {{=Red}}a{{=Green}}\nb{{y}}{{=Blue}}{{/match}}"),
        Ok(vec![Instruction::MatchScope(
            "match x".to_string(),
            vec![],
            vec![
                arm("Red", vec![lit("a")]),
                arm("Green", vec![lit("b"), val("y")]),
                arm("Blue", vec![]),
            ],
        )])
    );
}

#[test]
fn match_block_without_arms_is_a_plain_block() {
    assert_eq!(compile("{{#match x}} \n {{/match}}"), Ok(vec![scope("match x", vec![])]));
}

#[test]
fn statement_before_the_first_arm_is_kept() {
    assert_eq!(
        compile("{{#match x}}{{!f()}}{{=_}}a{{/match}}"),
        Ok(vec![Instruction::MatchScope(
            "match x".to_string(),
            vec![Instruction::Exec("f()".to_string())],
            vec![arm("_", vec![lit("a")])],
        )])
    );
}

#[test]
fn block_inside_an_arm_belongs_to_the_arm() {
    assert_eq!(
        compile("{{#match x}}{{=Some(v)}}{{#if v}}t{{/if}}{{=None}}n{{/match}}"),
        Ok(vec![Instruction::MatchScope(
            "match x".to_string(),
            vec![],
            vec![
                arm("Some(v)", vec![scope("if v", vec![lit("t")])]),
                arm("None", vec![lit("n")]),
            ],
        )])
    );
}

#[test]
fn text_before_the_first_arm_is_refused() {
    assert_eq!(
        compile("{{#match x}} a {{=Any}}b{{/match}}"),
        Err(CompileError::OutputBeforeFirstArm { text: " a ".to_string() })
    );
}

#[test]
fn branch_outside_a_match_is_refused() {
    assert_eq!(compile("{{=Any}}"), Err(CompileError::BranchOutsideMatch));
    assert_eq!(compile("{{#if a}}{{=Any}}{{/if}}"), Err(CompileError::BranchOutsideMatch));
}

#[test]
fn unterminated_marker_is_refused() {
    assert_eq!(compile("a{{"), Err(CompileError::UnterminatedMarker));
    assert_eq!(compile("{{   "), Err(CompileError::UnterminatedMarker));
    assert_eq!(compile("{{x"), Err(CompileError::UnterminatedMarker));
    assert_eq!(compile("{{x}"), Err(CompileError::UnterminatedMarker));
    assert_eq!(compile("{{#if a"), Err(CompileError::UnterminatedMarker));
    assert_eq!(compile("{{=Any"), Err(CompileError::UnterminatedMarker));
    assert_eq!(compile("{{{ raw }}"), Err(CompileError::UnterminatedMarker));
    assert_eq!(compile("{{#if a}}{{!x"), Err(CompileError::UnterminatedMarker));
}

#[test]
fn close_of_another_block_is_refused() {
    assert_eq!(
        compile("{{#if a}}x{{/for}}"),
        Err(CompileError::CloseMismatch { found: "for".to_string(), open: "if".to_string() })
    );
    assert_eq!(
        compile("{{#if a}}{{#for b}}x{{/ if }}{{/for}}"),
        Err(CompileError::CloseMismatch { found: "if".to_string(), open: "for".to_string() })
    );
    assert_eq!(
        compile("{{#else}}x{{/else}}"),
        Err(CompileError::CloseMismatch { found: "else".to_string(), open: "if".to_string() })
    );
}

#[test]
fn close_at_root_is_refused() {
    assert_eq!(compile("x{{/if}}"), Err(CompileError::CloseAtRoot { found: "if".to_string() }));
}

#[test]
fn unclosed_block_is_refused() {
    assert_eq!(
        compile("{{#if a}}x"),
        Err(CompileError::UnclosedBlock { open: "if".to_string() })
    );
    assert_eq!(
        compile("{{#while a}}{{#for b}}x{{/for}}"),
        Err(CompileError::UnclosedBlock { open: "while".to_string() })
    );
    assert_eq!(
        compile("{{#while a}}{{#for b}}x"),
        Err(CompileError::UnclosedBlock { open: "for".to_string() })
    );
}

#[test]
fn block_marker_without_a_keyword_is_refused() {
    assert_eq!(compile("{{#  }}x"), Err(CompileError::InvalidBlock));
    assert_eq!(compile("{{#if a}}x{{/}}"), Err(CompileError::InvalidBlock));
}

#[test]
fn compiling_twice_gives_the_same_program() {
    let template = "{{#if a}}x{{y}}{{#else}}{{{z}}}{{/if}}{{!w}}";
    assert_eq!(compile(template), compile(template));
}

#[test]
fn keyword_is_the_first_run_of_letters_and_digits() {
    assert_eq!(next_word("  if2(a) "), Some("if2".to_string()));
    assert_eq!(next_word("match x"), Some("match".to_string()));
    assert_eq!(next_word("(a)"), Some(String::new()));
    assert_eq!(next_word(" \t\n"), None);
    assert_eq!(next_word(""), None);
    assert_eq!(next_word(" für yy"), Some("für".to_string()));
}

#[test]
fn keyword_with_letters_beyond_ascii_must_match_whole() {
    assert_eq!(
        compile("{{#fü}}x{{/fa}}"),
        Err(CompileError::CloseMismatch { found: "fa".to_string(), open: "fü".to_string() })
    );
    assert_eq!(compile("{{#fü}}x{{/fü}}"), Ok(vec![scope("fü", vec![lit("x")])]));
}

#[test]
fn blank_means_white_space_only() {
    let chars = to_chars(" \t\u{a0}\nx ");
    assert!(is_blank(&chars, 0, 4));
    assert!(!is_blank(&chars, 0, 5));
    assert!(is_blank(&chars, 5, 6));
    assert!(is_blank(&chars, 2, 2));
}

#[test]
fn to_chars_gives_each_character() {
    assert_eq!(to_chars("aé€"), vec!['a', 'é', '€']);
    assert_eq!(to_chars(""), Vec::<char>::new());
}

#[test]
fn scanner_reports_literal_marker_and_end() {
    let chars = to_chars("ab{{ #if x }}\r\ncd");
    assert_eq!(scan(&chars, 0), Token::Literal { end: 2 });
    assert_eq!(
        scan(&chars, 2),
        Token::Marker { kind: MarkerKind::BlockOpen, start: 6, end: 11, next: 15 }
    );
    assert_eq!(scan(&chars, 15), Token::Literal { end: 17 });
    assert_eq!(scan(&chars, 17), Token::End);
    assert_eq!(scan(&chars, 18), Token::End);
}

#[test]
fn scanner_classifies_each_sigil() {
    let kind = |text: &str| match scan(&to_chars(text), 0) {
        Token::Marker { kind, .. } => kind,
        other => panic!("no marker: {:?}", other),
    };
    assert_eq!(kind("{{#a}}"), MarkerKind::BlockOpen);
    assert_eq!(kind("{{{a}}}"), MarkerKind::RawBlock);
    assert_eq!(kind("{{!a}}"), MarkerKind::Statement);
    assert_eq!(kind("{{=a}}"), MarkerKind::MatchBranch);
    assert_eq!(kind("{{/a}}"), MarkerKind::BlockClose);
    assert_eq!(kind("{{a}}"), MarkerKind::Value);
}

#[test]
fn scanner_reports_an_unterminated_marker() {
    assert_eq!(scan(&to_chars("{{ a }"), 0), Token::Unterminated);
    assert_eq!(scan(&to_chars("{{"), 0), Token::Unterminated);
}

#[test]
fn positions_count_characters_not_bytes() {
    assert_eq!(
        compile("é{{ü}}€{{#if ß}}\nö{{/if}}"),
        Ok(vec![lit("é"), val("ü"), lit("€"), scope("if ß", vec![lit("ö")])])
    );
}
