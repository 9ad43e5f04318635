use dbml_entity::emitter::{Block, Codegen};
use dbml_entity::schema::{i64_dec, u64_dec};

#[test]
fn render_nested_blocks_exactly() {
    let inner = Block::new(1, Some("fn run()")).line("go();".to_string());
    let outer = Block::new(0, Some("mod demo"))
        .line("use std::fmt;".to_string())
        .line_skip(1)
        .block(inner);
    let out = Codegen::new().line("// header".to_string()).block(outer).render();
    let expected = [
        "// header",
        "mod demo {",
        "  use std::fmt;",
        "",
        "  fn run() {",
        "    go();",
        "  }",
        "}",
        "",
    ]
    .join("\n");
    assert_eq!(out, expected);
}

#[test]
fn headerless_block_renders_entries_without_delimiters() {
    let group = Block::new(0, None).line("one".to_string()).line("two".to_string());
    let out = Codegen::new().block(group).render();
    assert_eq!(out, "one\ntwo\n");
}

#[test]
fn blank_runs_render_as_newlines() {
    let out = Codegen::new().line("a".to_string()).line_skip(2).line("b".to_string()).render();
    assert_eq!(out, "a\n\n\nb\n");
}

#[test]
fn conditional_line_is_skipped() {
    let b = Block::new(0, Some("s"))
        .line_cond(false, "hidden".to_string())
        .line_cond(true, "shown".to_string());
    let out = Codegen::new().block(b).render();
    assert_eq!(out, "s {\n  shown\n}\n");
}

#[test]
fn empty_headed_block_renders_delimiters_only() {
    let out = Codegen::new().block(Block::new(0, Some("pub struct Marker"))).render();
    assert_eq!(out, "pub struct Marker {\n}\n");
}

#[test]
fn decimal_formatting_is_exact() {
    assert_eq!(u64_dec(0), "0");
    assert_eq!(u64_dec(7), "7");
    assert_eq!(u64_dec(1234567890), "1234567890");
    assert_eq!(i64_dec(0), "0");
    assert_eq!(i64_dec(-1), "-1");
    assert_eq!(i64_dec(42), "42");
    assert_eq!(i64_dec(i64::MIN), "-9223372036854775808");
    assert_eq!(i64_dec(i64::MAX), "9223372036854775807");
}

#[test]
fn deep_indentation_is_two_spaces_per_level() {
    let l3 = Block::new(3, Some("three")).line("leaf".to_string());
    let l2 = Block::new(2, Some("two")).block(l3);
    let l1 = Block::new(1, Some("one")).block(l2);
    let l0 = Block::new(0, Some("zero")).block(l1);
    let out = Codegen::new().block(l0).render();
    let expected = [
        "zero {",
        "  one {",
        "    two {",
        "      three {",
        "        leaf",
        "      }",
        "    }",
        "  }",
        "}",
        "",
    ]
    .join("\n");
    assert_eq!(out, expected);
}
