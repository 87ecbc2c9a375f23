use drawbridge_boot::expand::{indirection_target, Expansion};

fn strings(items: &[&str]) -> Vec<String> {
    items.iter().map(|s| s.to_string()).collect()
}

/// Runs an expansion to its end, reading each awaited file from `files`.
fn run(args: &[&str], files: &[(&str, &str)]) -> (Vec<String>, Vec<String>) {
    let mut asked: Vec<String> = Vec::new();
    let mut e = Expansion::begin(strings(args));
    while let Some(path) = e.awaited() {
        let content = files
            .iter()
            .find(|(name, _)| *name == path)
            .map(|(_, text)| *text)
            .unwrap_or_else(|| panic!("no file {:?}", path));
        asked.push(path);
        e.supply(content);
    }
    (e.finish().unwrap(), asked)
}

#[test]
fn plain_argument_names_no_file() {
    assert_eq!(indirection_target("--store"), None);
    assert_eq!(indirection_target(""), None);
    assert_eq!(indirection_target("a@b"), None);
    assert_eq!(indirection_target(" @b"), None);
}

#[test]
fn marker_is_taken_off_the_path() {
    assert_eq!(indirection_target("@conf"), Some("conf".to_string()));
    assert_eq!(indirection_target("@/etc/server.args"), Some("/etc/server.args".to_string()));
    assert_eq!(indirection_target("@@x"), Some("@x".to_string()));
    assert_eq!(indirection_target("@"), Some("".to_string()));
    assert_eq!(indirection_target("@データ"), Some("データ".to_string()));
}

#[test]
fn arguments_without_marker_pass_through() {
    let e = Expansion::begin(strings(&["server", "--store", "/srv", "--key=k.pem"]));
    assert_eq!(e.awaited(), None);
    assert_eq!(e.finish(), Some(strings(&["server", "--store", "/srv", "--key=k.pem"])));
}

#[test]
fn no_arguments_expand_to_none() {
    let e = Expansion::begin(Vec::new());
    assert_eq!(e.awaited(), None);
    assert_eq!(e.finish(), Some(Vec::new()));
}

#[test]
fn file_lines_replace_the_indirection_in_place() {
    let (out, asked) = run(
        &["server", "--addr", "[::1]:443", "@conf", "--key", "k.pem"],
        &[("conf", "--store\n/srv/store\n--cert=c.pem\n")],
    );
    assert_eq!(asked, strings(&["conf"]));
    assert_eq!(
        out,
        strings(&["server", "--addr", "[::1]:443", "--store", "/srv/store", "--cert=c.pem", "--key", "k.pem"])
    );
}

#[test]
fn a_file_of_n_lines_adds_n_arguments() {
    for n in 0..6usize {
        let mut text = String::new();
        for i in 0..n {
            text.push_str(&format!("--line{}\n", i));
        }
        let (out, _) = run(&["a", "@f", "b", "c"], &[("f", text.as_str())]);
        assert_eq!(out.len(), 3 + n);
        assert_eq!(out[0], "a");
        for i in 0..n {
            assert_eq!(out[1 + i], format!("--line{}", i));
        }
        assert_eq!(out[1 + n], "b");
        assert_eq!(out[2 + n], "c");
    }
}

#[test]
fn empty_file_removes_the_indirection() {
    let (out, _) = run(&["a", "@empty", "b"], &[("empty", "")]);
    assert_eq!(out, strings(&["a", "b"]));
}

#[test]
fn several_files_are_read_in_argument_order() {
    let (out, asked) = run(
        &["@one", "x", "@two", "@one"],
        &[("one", "1a\n1b"), ("two", "2a\r\n")],
    );
    assert_eq!(asked, strings(&["one", "two", "one"]));
    assert_eq!(out, strings(&["1a", "1b", "x", "2a", "1a", "1b"]));
}

#[test]
fn lines_of_a_file_are_not_expanded_again() {
    let (out, asked) = run(&["@outer"], &[("outer", "@inner\n--x")]);
    assert_eq!(asked, strings(&["outer"]));
    assert_eq!(out, strings(&["@inner", "--x"]));
}

#[test]
fn expansion_waits_at_the_first_indirection() {
    let mut e = Expansion::begin(strings(&["a", "@f", "b", "@g", "c"]));
    assert_eq!(e.awaited(), Some("f".to_string()));
    e.supply("1\n2");
    assert_eq!(e.awaited(), Some("g".to_string()));
    e.supply("3");
    assert_eq!(e.awaited(), None);
    assert_eq!(e.finish(), Some(strings(&["a", "1", "2", "b", "3", "c"])));
}

#[test]
fn unfinished_expansion_yields_no_arguments() {
    let e = Expansion::begin(strings(&["a", "@f"]));
    assert_eq!(e.finish(), None);
}

#[test]
fn text_supplied_after_the_end_changes_nothing() {
    let mut e = Expansion::begin(strings(&["a", "b"]));
    e.supply("x\ny");
    assert_eq!(e.awaited(), None);
    assert_eq!(e.finish(), Some(strings(&["a", "b"])));
}

#[test]
fn later_values_follow_earlier_ones() {
    let (out, _) = run(
        &["--addr=0.0.0.0:1", "@f", "--addr=0.0.0.0:3"],
        &[("f", "--addr=0.0.0.0:2")],
    );
    assert_eq!(out, strings(&["--addr=0.0.0.0:1", "--addr=0.0.0.0:2", "--addr=0.0.0.0:3"]));
}
