use syntect::highlighting::ThemeSet;
use syntect::parsing::SyntaxSet;
use syntect_server::export::scopify_string_newlines;
use syntect_server::handler::{highlight, Query, Response};
use syntect_server::health;
use syntect_server::lines::LinesWithEndings;
use syntect_server::resolve::{extension, file_name, resolve_language};
use syntect_server::scope_table::ScopeNameTable;

fn query(code: &str, filepath: &str, ext: &str, theme: &str, scopify: bool) -> Query {
    Query {
        extension: ext.to_string(),
        filepath: filepath.to_string(),
        scopify,
        theme: theme.to_string(),
        code: code.to_string(),
    }
}

#[test]
fn health_marker() {
    assert_eq!(health(), "OK");
}

#[test]
fn lines_keep_endings() {
    let mut it = LinesWithEndings::from("a\nbc\nd");
    assert_eq!(it.next(), Some("a\n"));
    assert_eq!(it.next(), Some("bc\n"));
    assert_eq!(it.next(), Some("d"));
    assert_eq!(it.next(), None);
}

#[test]
fn lines_of_empty_and_trailing_newline() {
    let mut it = LinesWithEndings::from("");
    assert_eq!(it.next(), None);
    let mut it2 = LinesWithEndings::from("x\n");
    assert_eq!(it2.next(), Some("x\n"));
    assert_eq!(it2.next(), None);
}

#[test]
fn scope_table_index_stability() {
    let mut t = ScopeNameTable::new();
    assert_eq!(t.insert_full("source.go".to_string()), 0);
    assert_eq!(t.insert_full("keyword.control.go".to_string()), 1);
    assert_eq!(t.insert_full("source.go".to_string()), 0);
    assert_eq!(t.insert_full("string.quoted.go".to_string()), 2);
    assert_eq!(t.len(), 3);
    let names = t.into_names();
    assert_eq!(names, vec!["source.go", "keyword.control.go", "string.quoted.go"]);
}

#[test]
fn path_splitting() {
    assert_eq!(file_name("foo/myfile.go"), "myfile.go");
    assert_eq!(extension("myfile.go"), "go");
    assert_eq!(file_name("a.b.c"), "a.b.c");
    assert_eq!(extension("a.b.c"), "c");
    assert_eq!(file_name("dir/Makefile"), "Makefile");
    assert_eq!(extension("Makefile"), "");
    assert_eq!(extension(".gitignore"), "");
    assert_eq!(file_name("x/.."), "");
    assert_eq!(file_name("foo/bar/"), "bar");
}

#[test]
fn resolver_whole_name_match() {
    let ss = SyntaxSet::load_defaults_newlines();
    // "Makefile" resolves by whole file name; its extension component is
    // empty and matches nothing.
    let (syntax, plaintext) = resolve_language(&ss, "", "project/Makefile", "all:\n").unwrap();
    assert_eq!(syntax.name, "Makefile");
    assert!(!plaintext);
}

#[test]
fn resolver_fallback_asymmetry() {
    let ss = SyntaxSet::load_defaults_newlines();
    // Unresolvable everything, filepath present: degrade to plain text.
    let (syntax, plaintext) =
        resolve_language(&ss, "", "foo.nonexistent_ext_zz", "???").unwrap();
    assert_eq!(syntax.name, "Plain Text");
    assert!(plaintext);
    // Same inputs without a filepath: an error.
    assert!(resolve_language(&ss, "nonexistent_ext_zz", "", "???").is_err());
}

#[test]
fn resolver_first_line_fallback() {
    let ss = SyntaxSet::load_defaults_newlines();
    let (syntax, plaintext) =
        resolve_language(&ss, "", "", "#!/usr/bin/env ruby\nputs 1\n").unwrap();
    assert_eq!(syntax.name, "Ruby");
    assert!(!plaintext);
}

#[test]
fn export_partition_and_indices() {
    let ss = SyntaxSet::load_defaults_newlines();
    let syntax = ss.find_syntax_by_extension("go").unwrap();
    let code = "package main\n\nfunc main() {\n\tprintln(\"hi\")\n}\n";
    let (names, regions) = scopify_string_newlines(code, syntax, &ss).unwrap();
    let mut expected_offset = 0usize;
    for r in &regions {
        assert_eq!(r.offset, expected_offset);
        assert!(r.length > 0);
        expected_offset += r.length;
        for &i in &r.scopes {
            assert!(i < names.len());
        }
    }
    assert_eq!(expected_offset, code.len());
    // no duplicate names in the table
    for i in 0..names.len() {
        for j in 0..i {
            assert_ne!(names[i], names[j]);
        }
    }
}

#[test]
fn export_determinism() {
    let ss = SyntaxSet::load_defaults_newlines();
    let syntax = ss.find_syntax_by_extension("rb").unwrap();
    let code = "def f(x)\n  x + 1\nend\n";
    let (n1, r1) = scopify_string_newlines(code, syntax, &ss).unwrap();
    let (n2, r2) = scopify_string_newlines(code, syntax, &ss).unwrap();
    assert_eq!(n1, n2);
    assert_eq!(r1.len(), r2.len());
    for (a, b) in r1.iter().zip(r2.iter()) {
        assert_eq!(a.offset, b.offset);
        assert_eq!(a.length, b.length);
        assert_eq!(a.scopes, b.scopes);
    }
}

#[test]
fn end_to_end_html_go() {
    let ss = SyntaxSet::load_defaults_newlines();
    let ts = ThemeSet::load_defaults();
    let q = query("package main\n", "main.go", "", "InspiredGitHub", false);
    match highlight(&ss, &ts, &q) {
        Response::Html { data, plaintext, detected_language } => {
            assert_eq!(detected_language, "Go");
            assert!(!plaintext);
            assert!(!data.is_empty());
            assert!(data.starts_with("<pre style=\"background-color:#"));
            assert!(data.ends_with("</pre>"));
        }
        _ => panic!("expected an HTML response"),
    }
}

#[test]
fn end_to_end_scopify_go() {
    let ss = SyntaxSet::load_defaults_newlines();
    let ts = ThemeSet::load_defaults();
    let q = query("package main\n", "main.go", "", "InspiredGitHub", true);
    match highlight(&ss, &ts, &q) {
        Response::Scopes { plaintext, detected_language, scope_names, regions } => {
            assert!(!plaintext);
            assert_eq!(detected_language, "Go");
            let total: usize = regions.iter().map(|r| r.length).sum();
            assert_eq!(total, 13);
            assert!(scope_names.iter().any(|n| n.as_str() == "source.go"));
        }
        _ => panic!("expected a scope export response"),
    }
}

#[test]
fn end_to_end_invalid_extension() {
    let ss = SyntaxSet::load_defaults_newlines();
    let ts = ThemeSet::load_defaults();
    let q = query("???", "", "nonexistent_ext", "InspiredGitHub", false);
    match highlight(&ss, &ts, &q) {
        Response::Error { error, code } => {
            assert_eq!(error, "invalid extension");
            assert!(code.is_none());
        }
        _ => panic!("expected an error response"),
    }
}

#[test]
fn end_to_end_invalid_theme() {
    let ss = SyntaxSet::load_defaults_newlines();
    let ts = ThemeSet::load_defaults();
    let q = query("x", "a.b.c", "", "does-not-exist", false);
    match highlight(&ss, &ts, &q) {
        Response::Error { error, code } => {
            assert_eq!(error, "invalid theme");
            assert_eq!(code.as_deref(), Some("invalid_theme"));
        }
        _ => panic!("expected an error response"),
    }
}

#[test]
fn html_background_elision() {
    let ss = SyntaxSet::load_defaults_newlines();
    let ts = ThemeSet::load_defaults();
    // Every span of this snippet shares the theme's base background, so
    // the only background declaration is the container's own.
    let q = query("package main\n", "main.go", "", "InspiredGitHub", false);
    match highlight(&ss, &ts, &q) {
        Response::Html { data, .. } => {
            assert_eq!(data.matches("background-color").count(), 1);
        }
        _ => panic!("expected an HTML response"),
    }
}

#[test]
fn html_header_hex_from_theme() {
    let ss = SyntaxSet::load_defaults_newlines();
    let ts = ThemeSet::load_defaults();
    let theme = &ts.themes["base16-ocean.dark"];
    let bg = theme.settings.background.unwrap();
    let q = query("x\n", "a.txt", "", "base16-ocean.dark", false);
    match highlight(&ss, &ts, &q) {
        Response::Html { data, .. } => {
            let expected = format!(
                "<pre style=\"background-color:#{:02x}{:02x}{:02x};\">\n",
                bg.r, bg.g, bg.b
            );
            assert!(data.starts_with(&expected));
        }
        _ => panic!("expected an HTML response"),
    }
}

#[test]
fn legacy_extension_route() {
    let ss = SyntaxSet::load_defaults_newlines();
    let (syntax, plaintext) = resolve_language(&ss, "go", "", "package main\n").unwrap();
    assert_eq!(syntax.name, "Go");
    assert!(!plaintext);
}

#[test]
fn filepath_first_line_route() {
    let ss = SyntaxSet::load_defaults_newlines();
    let (syntax, plaintext) =
        resolve_language(&ss, "", "script.weird_ext_zz", "#!/usr/bin/env ruby\nputs 1\n").unwrap();
    assert_eq!(syntax.name, "Ruby");
    assert!(!plaintext);
}

#[test]
fn file_name_skips_trailing_dot_segment() {
    assert_eq!(file_name("foo/."), "foo");
    assert_eq!(extension("foo."), "");
}

#[test]
fn lines_with_multibyte_chars() {
    let mut it = LinesWithEndings::from("é\nß");
    assert_eq!(it.next(), Some("é\n"));
    assert_eq!(it.next(), Some("ß"));
    assert_eq!(it.next(), None);
}

#[test]
fn export_partition_multibyte() {
    let ss = SyntaxSet::load_defaults_newlines();
    let syntax = ss.find_syntax_by_extension("go").unwrap();
    let code = "// héllo wörld\npackage main\n";
    let (_, regions) = scopify_string_newlines(code, syntax, &ss).unwrap();
    let total: usize = regions.iter().map(|r| r.length).sum();
    assert_eq!(total, code.len());
    let mut expected_offset = 0usize;
    for r in &regions {
        assert_eq!(r.offset, expected_offset);
        expected_offset += r.length;
    }
}

#[test]
fn html_determinism() {
    let ss = SyntaxSet::load_defaults_newlines();
    let ts = ThemeSet::load_defaults();
    let q1 = query("package main\n", "main.go", "", "InspiredGitHub", false);
    let q2 = query("package main\n", "main.go", "", "InspiredGitHub", false);
    match (highlight(&ss, &ts, &q1), highlight(&ss, &ts, &q2)) {
        (Response::Html { data: d1, .. }, Response::Html { data: d2, .. }) => {
            assert_eq!(d1, d2);
        }
        _ => panic!("expected two HTML responses"),
    }
}

#[test]
fn scopify_empty_snippet() {
    let ss = SyntaxSet::load_defaults_newlines();
    let syntax = ss.find_syntax_plain_text();
    let (names, regions) = scopify_string_newlines("", syntax, &ss).unwrap();
    assert!(regions.is_empty());
    assert!(names.is_empty());
}
