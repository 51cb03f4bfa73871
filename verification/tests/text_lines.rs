use tmdb_ingest::lines::split_lines;

fn lines_of(text: &str) -> Vec<String> {
    split_lines(text.as_bytes())
        .into_iter()
        .map(|line| String::from_utf8(line.to_vec()).unwrap())
        .collect()
}

fn std_lines(text: &str) -> Vec<String> {
    text.lines().map(|line| line.to_string()).collect()
}

#[test]
fn an_empty_text_has_no_line() {
    assert_eq!(lines_of(""), Vec::<String>::new());
}

#[test]
fn a_final_line_feed_adds_no_line() {
    assert_eq!(lines_of("a\nb\n"), vec!["a", "b"]);
    assert_eq!(lines_of("a\nb"), vec!["a", "b"]);
    assert_eq!(lines_of("\n"), vec![""]);
}

#[test]
fn empty_lines_in_the_middle_are_lines() {
    assert_eq!(lines_of("a\n\nb"), vec!["a", "", "b"]);
    assert_eq!(lines_of("\n\n"), vec!["", ""]);
}

#[test]
fn a_carriage_return_before_a_line_feed_belongs_to_the_line_ending() {
    assert_eq!(lines_of("a\r\nb\r\n"), vec!["a", "b"]);
    assert_eq!(lines_of("\r\n"), vec![""]);
    assert_eq!(lines_of("a\r\r\n"), vec!["a\r"]);
}

#[test]
fn a_carriage_return_elsewhere_stays() {
    assert_eq!(lines_of("a\rb\n"), vec!["a\rb"]);
    assert_eq!(lines_of("baz\r"), vec!["baz\r"]);
    assert_eq!(lines_of("foo\nbar\n\r\nbaz\r"), vec!["foo", "bar", "", "baz\r"]);
}

#[test]
fn the_lines_are_those_of_the_standard_library() {
    let texts = [
        "",
        "\n",
        "\r",
        "\r\n",
        "a",
        "a\n",
        "a\r\n",
        "a\n\r",
        "a\r\nb",
        "one\ntwo\r\nthree\n\nfive\r",
        "{\"id\":1}\n{\"id\":2}\n",
        "caf\u{e9}\n\u{1f3ac}\r\n",
    ];
    for text in texts {
        assert_eq!(lines_of(text), std_lines(text), "text {:?}", text);
    }
}
