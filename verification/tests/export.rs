use deps_export::delimited::write_deps_zero;
use deps_export::escape::munge;
use deps_export::path::NativePath;
use deps_export::path::OutputTarget;
use deps_export::relativize::relative_dependencies;
use deps_export::rule::write_deps_make;
use deps_export::structured::write_deps_json;
use deps_export::write_deps;
use deps_export::DepsError;
use deps_export::DepsFormat;

fn path(s: &str) -> NativePath {
    NativePath::new(s.as_bytes().to_vec())
}

fn raw(bytes: &[u8]) -> NativePath {
    NativePath::new(bytes.to_vec())
}

#[test]
fn munge_escapes_space() {
    assert_eq!(munge("a b.typ"), "a\\ b.typ");
}

#[test]
fn munge_escapes_dollar() {
    assert_eq!(munge("$x"), "$$x");
}

#[test]
fn munge_escapes_colon() {
    assert_eq!(munge("a:b"), "a\\:b");
}

#[test]
fn munge_escapes_hash() {
    assert_eq!(munge("a#b"), "a\\#b");
}

#[test]
fn munge_doubles_backslashes_before_space() {
    // One backslash before the space becomes two, plus one more to escape
    // the space itself.
    assert_eq!(munge("a\\ b"), "a\\\\\\ b");
    assert_eq!(munge("a\\\\ b"), "a\\\\\\\\\\ b");
}

#[test]
fn munge_passes_plain_text_through() {
    assert_eq!(munge("src/main.typ"), "src/main.typ");
    assert_eq!(munge(""), "");
}

#[test]
fn delimited_writes_one_nul_per_record() {
    let deps = vec![path("src/main.typ"), path("assets/logo.png")];
    let out = write_deps_zero(deps);
    assert_eq!(out, b"src/main.typ\0assets/logo.png\0".to_vec());
}

#[test]
fn delimited_round_trip() {
    let inputs: Vec<&[u8]> = vec![b"a", b"with space", b"\xff\xfenot text"];
    let deps: Vec<NativePath> = inputs.iter().map(|b| raw(b)).collect();
    let out = write_deps_zero(deps);
    let mut segments: Vec<&[u8]> = out.split(|b| *b == 0).collect();
    let trailing = segments.pop().expect("split always yields a trailing segment");
    assert!(trailing.is_empty());
    assert_eq!(segments, inputs);
}

#[test]
fn delimited_accepts_non_text_paths() {
    let out = write_deps_zero(vec![raw(&[0xff, 0xfe])]);
    assert_eq!(out, vec![0xff, 0xfe, 0]);
}

#[test]
fn structured_document_exact() {
    let deps = vec![path("src/main.typ"), path("assets/logo.png")];
    let outputs = vec![OutputTarget::Path(path("out.pdf"))];
    let doc = write_deps_json(&deps, Some(&outputs)).unwrap();
    assert_eq!(doc, "{\"inputs\":[\"src/main.typ\",\"assets/logo.png\"],\"outputs\":[\"out.pdf\"]}");
}

#[test]
fn structured_outputs_null_without_output_list() {
    let doc = write_deps_json(&vec![path("a")], None).unwrap();
    assert_eq!(doc, "{\"inputs\":[\"a\"],\"outputs\":null}");
}

#[test]
fn structured_schema_parses_with_exact_keys() {
    let deps = vec![path("src/main.typ")];
    let outputs = vec![OutputTarget::Path(path("out.pdf"))];
    for (doc, has_outputs) in [
        (write_deps_json(&deps, Some(&outputs)).unwrap(), true),
        (write_deps_json(&deps, None).unwrap(), false),
    ] {
        let value: serde_json::Value = serde_json::from_str(&doc).unwrap();
        let object = value.as_object().unwrap();
        let keys: Vec<&String> = object.keys().collect();
        assert_eq!(keys, ["inputs", "outputs"]);
        assert!(object["inputs"].is_array());
        assert_eq!(object["outputs"].is_null(), !has_outputs);
    }
}

#[test]
fn structured_escapes_through_json() {
    let doc = write_deps_json(&vec![path("a\"b\\c")], None).unwrap();
    assert_eq!(doc, "{\"inputs\":[\"a\\\"b\\\\c\"],\"outputs\":null}");
}

#[test]
fn structured_skips_stdout_outputs_silently() {
    let deps = vec![path("a")];
    let outputs = vec![
        OutputTarget::Stdout,
        OutputTarget::Path(path("out.pdf")),
        OutputTarget::Stdout,
    ];
    let doc = write_deps_json(&deps, Some(&outputs)).unwrap();
    assert_eq!(doc, "{\"inputs\":[\"a\"],\"outputs\":[\"out.pdf\"]}");
}

#[test]
fn structured_fails_on_non_text_input() {
    let bad = vec![0x2f, 0xff, 0x61];
    let deps = vec![path("fine"), raw(&bad)];
    match write_deps_json(&deps, None) {
        Err(DepsError::NonUtf8Input(p)) => assert_eq!(p.bytes, bad),
        other => panic!("expected a non-text input error, got {:?}", other.is_ok()),
    }
}

#[test]
fn structured_fails_on_non_text_output() {
    let bad = vec![0xc0, 0x00];
    let outputs = vec![OutputTarget::Path(raw(&bad))];
    match write_deps_json(&vec![path("fine")], Some(&outputs)) {
        Err(DepsError::NonUtf8Output(p)) => assert_eq!(p.bytes, bad),
        other => panic!("expected a non-text output error, got {:?}", other.is_ok()),
    }
}

#[test]
fn relativization_strips_root_prefix() {
    let deps = vec![path("/proj/a/b")];
    let rel = relative_dependencies(deps, &path("/proj"), &path("/proj"));
    assert_eq!(rel.len(), 1);
    assert_eq!(rel[0].bytes, b"a/b".to_vec());
}

#[test]
fn relativization_leaves_outside_paths_unchanged() {
    let deps = vec![path("/elsewhere/c.typ")];
    let rel = relative_dependencies(deps, &path("/proj"), &path("/proj"));
    assert_eq!(rel[0].bytes, b"/elsewhere/c.typ".to_vec());
}

#[test]
fn relativization_uses_path_difference() {
    let deps = vec![path("/a/b/x.typ"), path("/a/b")];
    let rel = relative_dependencies(deps, &path("/a/b"), &path("/a/c"));
    assert_eq!(rel[0].bytes, b"../b/x.typ".to_vec());
    assert_eq!(rel[1].bytes, b"../b".to_vec());
}

#[test]
fn rule_fails_on_stdout_output() {
    let outputs = vec![OutputTarget::Path(path("out.pdf")), OutputTarget::Stdout];
    match write_deps_make(&vec![path("a")], &outputs) {
        Err(DepsError::StdoutOutput) => {},
        _ => panic!("expected the standard-output rule target to be fatal"),
    }
}

#[test]
fn rule_skips_non_text_paths_silently() {
    let deps = vec![path("a"), raw(&[0xff]), path("b")];
    let outputs = vec![
        OutputTarget::Path(raw(&[0xfe])),
        OutputTarget::Path(path("out.pdf")),
    ];
    let line = write_deps_make(&deps, &outputs).unwrap();
    assert_eq!(line, "out.pdf: a b\n");
}

#[test]
fn make_with_no_usable_targets_emits_nothing() {
    let deps = vec![path("a")];
    let outputs = vec![OutputTarget::Path(raw(&[0xff]))];
    assert_eq!(write_deps_make(&deps, &outputs).unwrap(), "");
    let empty_outputs: Vec<OutputTarget> = Vec::new();
    assert_eq!(write_deps_make(&deps, &empty_outputs).unwrap(), "");
}

#[test]
fn rule_line_exact() {
    let deps = vec![path("src/main.typ"), path("assets/logo.png")];
    let outputs = vec![
        OutputTarget::Path(path("out.pdf")),
        OutputTarget::Path(path("alt out.pdf")),
    ];
    let line = write_deps_make(&deps, &outputs).unwrap();
    assert_eq!(line, "out.pdf alt\\ out.pdf: src/main.typ assets/logo.png\n");
}

#[test]
fn end_to_end_make() {
    let deps = vec![path("/proj/src/main.typ"), path("/proj/assets/logo.png")];
    let outputs = vec![OutputTarget::Path(path("out.pdf"))];
    let out = write_deps(
        deps,
        &path("/proj"),
        &path("/proj"),
        DepsFormat::Make,
        Some(&outputs),
    )
    .unwrap();
    assert_eq!(out, b"out.pdf: src/main.typ assets/logo.png\n".to_vec());
}

#[test]
fn end_to_end_json() {
    let deps = vec![path("/proj/src/main.typ"), path("/proj/assets/logo.png")];
    let outputs = vec![OutputTarget::Path(path("out.pdf"))];
    let out = write_deps(
        deps,
        &path("/proj"),
        &path("/proj"),
        DepsFormat::Json,
        Some(&outputs),
    )
    .unwrap();
    assert_eq!(
        String::from_utf8(out).unwrap(),
        "{\"inputs\":[\"src/main.typ\",\"assets/logo.png\"],\"outputs\":[\"out.pdf\"]}"
    );
}

#[test]
fn end_to_end_zero() {
    let deps = vec![path("/proj/src/main.typ"), path("/proj/assets/logo.png")];
    let out = write_deps(deps, &path("/proj"), &path("/proj"), DepsFormat::Zero, None).unwrap();
    assert_eq!(out, b"src/main.typ\0assets/logo.png\0".to_vec());
}

#[test]
fn empty_dependency_list() {
    let no_deps: Vec<NativePath> = Vec::new();
    assert_eq!(write_deps_zero(no_deps), Vec::<u8>::new());
    assert_eq!(
        write_deps_json(&Vec::new(), None).unwrap(),
        "{\"inputs\":[],\"outputs\":null}"
    );
    let outputs = vec![OutputTarget::Path(path("out.pdf"))];
    assert_eq!(write_deps_make(&Vec::new(), &outputs).unwrap(), "out.pdf:\n");
}

#[test]
fn make_without_output_list_is_a_no_op() {
    let deps = vec![path("/proj/src/main.typ")];
    let out = write_deps(deps, &path("/proj"), &path("/proj"), DepsFormat::Make, None).unwrap();
    assert!(out.is_empty());
}
