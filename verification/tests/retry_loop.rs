use input_reader::reader::read_from_lines;

fn lines(texts: &[&str]) -> Vec<String> {
    let mut v: Vec<String> = Vec::new();
    for t in texts {
        v.push(String::from(*t));
    }
    v
}

#[test]
fn success_on_first_valid_line() {
    let input = lines(&["42\n"]);
    let r: Option<(i64, usize)> = read_from_lines(&input);
    assert_eq!(r, Some((42, 1)));
}

#[test]
fn retry_on_invalid_then_valid_line() {
    let input = lines(&["abc\n", "42\n"]);
    let r: Option<(i64, usize)> = read_from_lines(&input);
    assert_eq!(r, Some((42, 2)));
}

#[test]
fn every_line_invalid_keeps_retrying() {
    let input = lines(&["abc\n", "3.14\n", "\n"]);
    let r: Option<(i64, usize)> = read_from_lines(&input);
    assert_eq!(r, None);
}

#[test]
fn type_sensitive_parsing_of_same_stream() {
    let input = lines(&["3.14\n", "42\n"]);
    let as_int: Option<(i64, usize)> = read_from_lines(&input);
    assert_eq!(as_int, Some((42, 2)));
    let as_text: Option<(String, usize)> = read_from_lines(&input);
    assert_eq!(as_text, Some((String::from("3.14"), 1)));
}

#[test]
fn repeated_calls_are_independent() {
    let first_segment = lines(&["abc\n", "7\n"]);
    let second_segment = lines(&["8\n"]);
    let first: Option<(i64, usize)> = read_from_lines(&first_segment);
    let second: Option<(i64, usize)> = read_from_lines(&second_segment);
    assert_eq!(first, Some((7, 2)));
    assert_eq!(second, Some((8, 1)));

    // The second segment reads the same whether or not another read went
    // before it in the same process.
    let second_again: Option<(i64, usize)> = read_from_lines(&second_segment);
    assert_eq!(second_again, Some((8, 1)));

    // And a combined stream agrees with reading the segments one after the
    // other: the first call takes all of the first segment, the second call
    // starts fresh on what is left.
    let mut combined = first_segment;
    for l in lines(&["8\n"]) {
        combined.push(l);
    }
    let on_combined: Option<(i64, usize)> = read_from_lines(&combined);
    assert_eq!(on_combined, Some((7, 2)));
    let rest = lines(&["8\n"]);
    let after: Option<(i64, usize)> = read_from_lines(&rest);
    assert_eq!(after, Some((8, 1)));
}
