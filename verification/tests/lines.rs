use drawbridge_boot::lines::split_lines;

fn std_lines(text: &str) -> Vec<String> {
    text.lines().map(|l| l.to_string()).collect()
}

#[test]
fn empty_text_has_no_line() {
    assert_eq!(split_lines(""), Vec::<String>::new());
}

#[test]
fn text_without_line_feed_is_one_line() {
    assert_eq!(split_lines("--store=/var/db"), vec!["--store=/var/db".to_string()]);
}

#[test]
fn final_line_feed_adds_no_line() {
    assert_eq!(split_lines("a\nb\n"), vec!["a".to_string(), "b".to_string()]);
    assert_eq!(split_lines("a\nb"), vec!["a".to_string(), "b".to_string()]);
}

#[test]
fn empty_lines_are_kept() {
    assert_eq!(
        split_lines("\n\nx\n\n"),
        vec!["".to_string(), "".to_string(), "x".to_string(), "".to_string()]
    );
}

#[test]
fn carriage_return_before_line_feed_is_dropped() {
    assert_eq!(split_lines("a\r\nb\r\n"), vec!["a".to_string(), "b".to_string()]);
    assert_eq!(split_lines("\r\n"), vec!["".to_string()]);
}

#[test]
fn only_one_carriage_return_is_dropped() {
    assert_eq!(split_lines("a\r\r\nb"), vec!["a\r".to_string(), "b".to_string()]);
}

#[test]
fn lone_carriage_return_stays_in_the_line() {
    assert_eq!(split_lines("a\rb\nc"), vec!["a\rb".to_string(), "c".to_string()]);
    assert_eq!(split_lines("a\nb\r"), vec!["a".to_string(), "b\r".to_string()]);
    assert_eq!(split_lines("\r"), vec!["\r".to_string()]);
}

#[test]
fn characters_beyond_ascii_are_kept_whole() {
    assert_eq!(
        split_lines("--oidc-label=Größe\n--store=/données/ü\r\n日本語"),
        vec![
            "--oidc-label=Größe".to_string(),
            "--store=/données/ü".to_string(),
            "日本語".to_string()
        ]
    );
}

#[test]
fn split_lines_agrees_with_std_lines() {
    let samples = [
        "",
        "\n",
        "\r",
        "\r\n",
        "\n\r",
        "a",
        "a\n",
        "a\r",
        "a\r\n",
        "a\n\n",
        "a\r\n\r\n",
        "a\nb",
        "a\r\nb\r",
        "\r\r\n\r",
        "--addr\n127.0.0.1:9000\n--store=/srv\n",
        "é\nü\r\n\n漢字\r",
    ];
    for text in samples {
        assert_eq!(split_lines(text), std_lines(text), "on {:?}", text);
    }
}
