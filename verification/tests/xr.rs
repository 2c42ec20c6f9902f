use xtools::xr::ruby_sources::{Github, AIRBRAKE_ID, PREFIX};
use xtools::parse::Parser;
use xtools::xr::parse_ruby::{fsl, new, nl, program, source_chars, stmt, Ident, RubyEngine, FROZEN};
use xtools::xr::source_char::SourceChar;
use xtools::xr::{app, XrError};
use xtools::parse::{Any, Token};
use xtools::token::exact;
use xtools::xr_dyn::{GrammarTable, Production, Any as AnyRule, VERSION};
use xtools::script::dict::Dict;

fn chars(s: &str) -> Vec<SourceChar> {
    source_chars(s)
}

#[test]
fn loading_ruby_is_not_done() {
    assert_eq!(app("a.rb", "# frozen_string_literal: true\n\nputs 1"), Err(XrError::Undone));
    let mut rb = new();
    assert_eq!(rb.load_as_file("b.rb", "é".as_bytes()), Err(XrError::Undone));
}

#[test]
fn ruby_tokens() {
    assert_eq!(*nl().0 .0, '\n');
    assert_eq!(fsl().0 .0, FROZEN);
    let src = chars("\nx");
    assert_eq!(nl().parse(src.as_slice()).map(|s| s.len()), Some(1));
    let src = chars("# frozen_string_literal: true\n");
    assert_eq!(fsl().parse(src.as_slice()).map(|s| s.len()), Some(29));
    let src = chars("# fro");
    assert_eq!(fsl().parse(src.as_slice()).map(|s| s.len()), Some(5));
}

#[test]
fn ruby_program_prefix() {
    let st = stmt();
    let id = Token(Ident);
    let spaces = Any(Token(exact::<[SourceChar], str>(" ")));
    let p = program(&st, &id, &spaces);
    let src = chars("# frozen_string_literal: true\n\nabc1  ");
    assert!(p.parse(src.as_slice()).is_some());
    let src = chars("\n\n1abc ");
    assert!(p.parse(src.as_slice()).is_some());
    let src = chars("\n\n ");
    assert!(p.parse(src.as_slice()).is_none());
    let src = chars("x");
    assert!(p.parse(src.as_slice()).is_none());
}

#[test]
fn grammar_table_lookup() {
    let mut d = Dict::new();
    d.insert("Program".to_string(), Production::Any(AnyRule("Stmt".to_string())));
    let g = GrammarTable(d);
    assert!(matches!(g.get("Program"), Some(Production::Any(AnyRule(s))) if s == "Stmt"));
    assert!(g.get("Nope").is_none());
    assert_eq!(VERSION, "0.0.1");
}

#[test]
fn github_names() {
    let g = Github(AIRBRAKE_ID);
    assert_eq!(g.id(), "airbrake");
    assert_eq!(g.full_id(), "airbrake/airbrake");
    assert_eq!(g.url(), "https://github.com/airbrake/airbrake");
    assert_eq!(g.target(), format!("{}airbrake/airbrake", PREFIX));
    let h = Github("owner/repo");
    assert_eq!(h.full_id(), "owner/repo");
}
