use echess::text::normalize_line;

#[test]
fn normalizing_trims_and_lowercases() {
    assert_eq!(normalize_line(" HeLLo\t\n"), "hello");
    assert_eq!(normalize_line("E2E4\r\n"), "e2e4");
    assert_eq!(normalize_line("\u{3000}ABC\u{85}"), "abc");
    assert_eq!(normalize_line("\u{a0} A B \u{2028}"), "a b");
    assert_eq!(normalize_line("   "), "");
    assert_eq!(normalize_line("\u{c9}T\u{c9}"), "\u{e9}t\u{e9}");
}

#[test]
fn trimming_agrees_with_std() {
    let lines = [
        "", " ", "abc", "  abc  ", "\t\na b\r\n", "\u{3000}x\u{85}", "\u{2000}\u{200a}y\u{2028}\u{2029}",
        "\u{202f}\u{205f}z\u{a0}\u{1680}", "\u{200b}w\u{200b}", "\u{1c}q\u{1c}",
    ];
    for line in lines.iter() {
        assert_eq!(echess::text::trim_line(line), line.trim(), "line {:?}", line);
    }
}
