use aresty::codegen::{generate, push_all, push_instruction, push_literal};
use aresty::compiler::compile;
use aresty::instruction::Instruction;
use aresty::text::strip_bom;

fn code_for(template: &str) -> String {
    generate(&compile(template).expect("compile"), "out", "esc")
}

#[test]
fn empty_program_only_yields_success() {
    assert_eq!(code_for(""), "{::core::result::Result::Ok(())}");
}

#[test]
fn literal_is_written_as_a_quoted_string() {
    assert_eq!(
        code_for("say \"hi\"\n"),
        "{write!(out, \"{}\", \"say \\\"hi\\\"\\n\")?;::core::result::Result::Ok(())}"
    );
}

#[test]
fn value_goes_through_the_escaping_strategy() {
    assert_eq!(
        code_for("{{name}}"),
        "{esc.write(out, &format!(\"{}\", name))?;::core::result::Result::Ok(())}"
    );
}

#[test]
fn raw_value_is_written_directly() {
    assert_eq!(
        code_for("{{{name}}}"),
        "{write!(out, \"{}\", name)?;::core::result::Result::Ok(())}"
    );
}

#[test]
fn statement_ends_in_a_semicolon() {
    assert_eq!(code_for("{{!let a = 1}}"), "{let a = 1;::core::result::Result::Ok(())}");
}

#[test]
fn block_wraps_its_body_in_braces() {
    assert_eq!(
        code_for("{{#if a}}{{x}}{{#else}}{{!f()}}{{/if}}"),
        "{if a{esc.write(out, &format!(\"{}\", x))?;}else{f();}::core::result::Result::Ok(())}"
    );
    assert_eq!(code_for("{{#block}}{{!f()}}{{/block}}"), "{{f();}::core::result::Result::Ok(())}");
}

#[test]
fn match_block_closes_each_arm_and_itself() {
    assert_eq!(
        code_for("{{#match x}}\n{{=Some(v)}}{{!f(v)}}{{=None}}{{/match}}"),
        "{match x{Some(v) => {f(v);}None => {}}::core::result::Result::Ok(())}"
    );
}

#[test]
fn pieces_append_to_the_code_so_far() {
    let mut code = String::from("a;");
    push_literal(&mut code, "w", "\"x\"");
    assert_eq!(code, "a;write!(w, \"{}\", \"x\")?;");
    let mut code = String::from("b;");
    push_instruction(&mut code, &Instruction::Literal("x\ty".to_string()), "w", "e");
    assert_eq!(code, "b;write!(w, \"{}\", \"x\\ty\")?;");
    let mut code = String::from("c;");
    let program = vec![
        Instruction::Exec("f()".to_string()),
        Instruction::RawEmit("g".to_string()),
    ];
    push_all(&mut code, &program, "w", "e");
    assert_eq!(code, "c;f();write!(w, \"{}\", g)?;");
}

#[test]
fn one_byte_order_mark_is_stripped() {
    assert_eq!(strip_bom("\u{feff}abc"), "abc");
    assert_eq!(strip_bom("\u{feff}\u{feff}abc"), "\u{feff}abc");
    assert_eq!(strip_bom("abc\u{feff}"), "abc\u{feff}");
    assert_eq!(strip_bom(""), "");
    assert_eq!(strip_bom("\u{feff}"), "");
}
