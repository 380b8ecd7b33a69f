use qwq::text::split_lines;

#[test]
fn lines_split_like_std() {
    for s in ["", "\n", "a", "a\n", "a\r\nb\n", "a\n\nb", "x\r", "a\rb\r\n"] {
        let expected: Vec<String> = s.lines().map(|l| l.to_string()).collect();
        assert_eq!(split_lines(s), expected, "input {:?}", s);
    }
}
