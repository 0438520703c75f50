use logman::syntax::language::Language;
use logman::syntax::lexer::lex_line;
use logman::syntax::scan::{char_step, indent_of, number, quote_body, quoted, skip_spaces, word_boundary, word_end};
use logman::syntax::token::{Carry, Heredoc, LineState, Runs, Token, TokenKind};

fn kinds(line: &str, language: Language) -> Vec<(TokenKind, String)> {
    let (tokens, _) = lex_line(line, LineState::start(), language);
    tokens.iter().map(|token| (token.kind, line[token.start..token.end].to_owned())).collect()
}

const ALL: [Language; 7] = [
    Language::Plain,
    Language::Shell,
    Language::Yaml,
    Language::Json,
    Language::Toml,
    Language::Conf,
    Language::Dockerfile,
];

#[test]
fn tokens_cover_every_line() {
    let lines = [
        "",
        "plain text",
        "# a comment",
        "key: \"value\" # done",
        "echo \"$HOME\" && exit 1",
        "\u{c5}ngstr\u{f6}m = '\u{1f600}'",
        "cat <<EOF",
        "FROM alpine:3.20 \\",
        "{\"a\": [1, 2.5e3, null, true]}",
        "\"\"\"unclosed",
        "\u{0} \u{7f} \u{fffd}",
    ];
    for language in ALL {
        let mut state = LineState::start();
        for line in lines {
            let (tokens, next) = lex_line(line, state, language);
            let mut at = 0;
            for token in &tokens {
                assert_eq!(token.start, at, "{line:?}");
                assert!(token.end > token.start, "{line:?}");
                assert!(line.is_char_boundary(token.end), "{line:?}");
                at = token.end;
            }
            assert_eq!(at, line.len(), "{line:?}");
            if !language.carries_state() {
                assert!(next.is_start(), "{line:?}");
            }
            state = next;
        }
    }
}

#[test]
fn lexing_again_from_the_same_state_gives_the_same() {
    let mut one = LineState::start();
    for line in ["echo 'open", "still open", "closed' # comment"] {
        one = lex_line(line, one, Language::Shell).1;
    }
    assert!(one.is_start());
    let (tokens, _) = lex_line("echo done", one, Language::Shell);
    let (again, _) = lex_line("echo done", LineState::start(), Language::Shell);
    assert_eq!(tokens, again);
}

#[test]
fn names_come_before_extensions_and_shebangs() {
    assert_eq!(Language::detect("/srv/Dockerfile", ""), Language::Dockerfile);
    assert_eq!(Language::detect("deploy.yml", "#!/bin/sh"), Language::Yaml);
    assert_eq!(Language::detect("deploy", "#!/usr/bin/env bash"), Language::Shell);
    assert_eq!(Language::detect("deploy", "#!/usr/bin/python3"), Language::Plain);
    assert_eq!(Language::detect("Cargo.toml", ""), Language::Toml);
    assert_eq!(Language::detect("package.JSON", ""), Language::Json);
    assert_eq!(Language::detect("app.ini", ""), Language::Conf);
    assert_eq!(Language::detect("README.md", ""), Language::Plain);
}

#[test]
fn only_json_has_no_comment() {
    assert_eq!(Language::Json.line_comment(), None);
    assert_eq!(Language::Shell.line_comment(), Some("#"));
    assert_eq!(Language::Plain.line_comment(), Some("#"));
}

#[test]
fn a_comment_runs_to_the_end_of_the_line() {
    let tokens = kinds("# all of it", Language::Shell);
    assert_eq!(tokens, [(TokenKind::Comment, "# all of it".to_owned())]);
}

#[test]
fn a_heredoc_is_carried_to_its_tag() {
    let (_, state) = lex_line("cat <<EOF", LineState::start(), Language::Shell);
    assert!(matches!(state.0, Carry::Heredoc(_)));
    let (tokens, state) = lex_line("if this were code", state, Language::Shell);
    assert_eq!(tokens, [Token { kind: TokenKind::String, start: 0, end: 17 }]);
    let (_, state) = lex_line("EOF", state, Language::Shell);
    assert!(state.is_start());
}

#[test]
fn heredoc_tags_have_to_fit() {
    assert!(Heredoc::new("SEVENTEEN_LETTERS", false).is_none());
    assert!(Heredoc::new("", false).is_none());
    let plain = Heredoc::new("EOF", false).expect("a short tag");
    assert!(plain.terminates("EOF  "));
    assert!(!plain.terminates("  EOF"));
    assert!(!plain.terminates("EOFF"));
    let dashed = Heredoc::new("EOF", true).expect("a short tag");
    assert!(dashed.terminates("\t EOF "));
}

#[test]
fn runs_fill_the_gaps() {
    let mut runs = Runs::new();
    runs.push(TokenKind::Key, 2, 4);
    runs.push(TokenKind::String, 6, 9);
    // A span behind one already pushed, and an empty one, are passed over.
    runs.push(TokenKind::Number, 3, 5);
    runs.push(TokenKind::Number, 9, 9);
    assert_eq!(
        runs.finish(10),
        [
            Token { kind: TokenKind::Plain, start: 0, end: 2 },
            Token { kind: TokenKind::Key, start: 2, end: 4 },
            Token { kind: TokenKind::Plain, start: 4, end: 6 },
            Token { kind: TokenKind::String, start: 6, end: 9 },
            Token { kind: TokenKind::Plain, start: 9, end: 10 },
        ]
    );
}

#[test]
fn scanning_goes_by_bytes_and_characters() {
    assert_eq!(char_step("a\u{e9}\u{20ac}\u{1f600}", 0), 1);
    assert_eq!(char_step("a\u{e9}\u{20ac}\u{1f600}", 1), 2);
    assert_eq!(char_step("a\u{e9}\u{20ac}\u{1f600}", 3), 3);
    assert_eq!(char_step("a\u{e9}\u{20ac}\u{1f600}", 6), 4);
    assert!(word_boundary(b"a b", 0));
    assert!(word_boundary(b"a b", 2));
    assert!(!word_boundary(b"ab", 1));
    assert_eq!(word_end(b"foo_1 bar", 0), 5);
    assert_eq!(skip_spaces(b" \t x", 0), 3);
    assert_eq!(indent_of("  \tx"), 3);
}

#[test]
fn quotes_close_or_do_not() {
    assert_eq!(quoted("\"a\\\"b\" c", 0, true), Some(6));
    assert_eq!(quote_body("'a'", 1, b'\'', false), Some(3));
    assert_eq!(quote_body("'open", 1, b'\'', false), None);
}

#[test]
fn versions_and_addresses_are_one_number() {
    assert_eq!(number("1.2.3 rest", 0), 5);
    assert_eq!(number("127.0.0.1:80", 0), 12);
    assert_eq!(number("2026-07-30T", 0), 10);
    assert_eq!(number("42.", 0), 2);
}

#[test]
fn a_timestamp_is_one_number() {
    assert_eq!(number("1979-05-27T07:32:00", 0), 19);
    assert_eq!(number("1979-05-27t07:32:00 rest", 0), 19);
    assert_eq!(number("at = 1979-05-27T07:32:00", 5), 24);
    assert_eq!(number("1979-05-27T07:32", 0), 16);
    assert_eq!(number("1979-05-27T07:32:00.999", 0), 23);
    assert_eq!(number("1979-05-27T07:32:00Z", 0), 20);
    assert_eq!(number("1979-05-27T07:32:00Zulu", 0), 19);
    assert_eq!(number("1979-05-27T07:32:00-07:00", 0), 25);
    assert_eq!(number("1979-05-27T07:32:00+07:00", 0), 25);
    assert_eq!(number("1979-05-27T07:32:00+07:00 rest", 0), 25);
    assert_eq!(number("1979-05-27T07:32:00+07:321", 0), 19);
    assert_eq!(number("1979-05-27T07:32:00+07:32_", 0), 19);
    let tokens = kinds("at = 1979-05-27T07:32:00Z", Language::Toml);
    assert!(tokens.contains(&(TokenKind::Number, "1979-05-27T07:32:00Z".to_owned())));
}

#[test]
fn a_letter_ends_any_other_number() {
    assert_eq!(number("1979-05-27", 0), 10);
    assert_eq!(number("1979-05-27T", 0), 10);
    assert_eq!(number("1979-05-27Today", 0), 10);
    assert_eq!(number("07:32:00", 0), 8);
    assert_eq!(number("07:32:00Z", 0), 8);
    assert_eq!(number("5T6", 0), 1);
    assert_eq!(number("1.2T3:4", 0), 3);
    assert_eq!(number("80:", 0), 2);
    assert_eq!(number("2.5e+", 0), 3);
    assert_eq!(number("2.5e+7", 0), 6);
    assert_eq!(number("5em", 0), 1);
    assert_eq!(number("0xff_ff;", 0), 7);
}

#[test]
fn heredocs_with_one_tag_are_equal() {
    let line = "cat <<EOF && date; true";
    let (_, one) = lex_line(line, LineState::start(), Language::Shell);
    let (_, two) = lex_line("cat <<EOF", LineState::start(), Language::Shell);
    assert!(matches!(one.0, Carry::Heredoc(_)));
    assert_eq!(one, two);
    let (_, other) = lex_line("cat <<END", LineState::start(), Language::Shell);
    assert_ne!(one, other);
    let (_, dashed) = lex_line("cat <<-EOF", LineState::start(), Language::Shell);
    assert_ne!(one, dashed);
    assert_ne!(one, LineState::start());
    assert_eq!(Heredoc::new("EOF", false), Heredoc::new("EOF", false));
    assert_ne!(Heredoc::new("EOF", false), Heredoc::new("EO", false));
    assert_ne!(LineState(Carry::Quote(b'"')), LineState(Carry::Multiline(b'"')));
    assert_eq!(LineState(Carry::BlockScalar(4)), LineState(Carry::BlockScalar(4)));
}

#[test]
fn either_separator_ends_a_directory() {
    assert_eq!(Language::detect("etc/app.toml", ""), Language::Toml);
    assert_eq!(Language::detect("C:\\etc.json\\app.toml", ""), Language::Toml);
}

#[test]
fn a_mapping_has_a_key() {
    let tokens = kinds("name: value", Language::Yaml);
    assert_eq!(tokens[0], (TokenKind::Key, "name".to_owned()));
    let tokens = kinds("port = 22", Language::Toml);
    assert_eq!(tokens[0], (TokenKind::Key, "port".to_owned()));
    assert!(tokens.contains(&(TokenKind::Number, "22".to_owned())));
}

#[test]
fn literals_and_variables_are_told_apart() {
    assert!(kinds("{\"a\": true}", Language::Json).contains(&(TokenKind::Literal, "true".to_owned())));
    assert!(kinds("echo $HOME", Language::Shell).contains(&(TokenKind::Variable, "$HOME".to_owned())));
}
