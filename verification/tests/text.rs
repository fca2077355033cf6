use envlint::text::{chars_of, find_from, join_with, split_on};

fn strings(items: &[&str]) -> Vec<String> {
    items.iter().map(|s| s.to_string()).collect()
}

#[test]
fn characters_of_a_text() {
    assert_eq!(chars_of("a=é\n"), vec!['a', '=', 'é', '\n']);
    assert_eq!(chars_of(""), Vec::<char>::new());
}

#[test]
fn first_occurrence_from_an_index() {
    let chars = chars_of("a=b=c");
    assert_eq!(find_from(&chars, 0, '='), 1);
    assert_eq!(find_from(&chars, 1, '='), 1);
    assert_eq!(find_from(&chars, 2, '='), 3);
    assert_eq!(find_from(&chars, 4, '='), 5);
    assert_eq!(find_from(&chars, 5, '='), 5);
    assert_eq!(find_from(&chars, 0, 'x'), 5);
}

#[test]
fn split_gives_one_piece_more_than_separators() {
    assert_eq!(split_on("a\nb\nc", '\n'), strings(&["a", "b", "c"]));
    assert_eq!(split_on("abc", '\n'), strings(&["abc"]));
    assert_eq!(split_on("", '\n'), strings(&[""]));
    assert_eq!(split_on("\n", '\n'), strings(&["", ""]));
    assert_eq!(split_on("a\n", '\n'), strings(&["a", ""]));
    assert_eq!(split_on("\na", '\n'), strings(&["", "a"]));
    assert_eq!(split_on("a\n\nb", '\n'), strings(&["a", "", "b"]));
    assert_eq!(split_on("é,ü,", ','), strings(&["é", "ü", ""]));
}

#[test]
fn split_agrees_with_the_standard_library() {
    let texts = ["", "a", ",", "a,b", ",,", "a,,b,", ",a,é,", "no separator"];
    for text in texts {
        let expected: Vec<String> = text.split(',').map(|s| s.to_string()).collect();
        assert_eq!(split_on(text, ','), expected);
    }
}

#[test]
fn join_puts_the_separator_between() {
    assert_eq!(join_with(&strings(&["a", "b", "c"]), ", "), "a, b, c");
    assert_eq!(join_with(&strings(&["a"]), ", "), "a");
    assert_eq!(join_with(&strings(&[]), ", "), "");
    assert_eq!(join_with(&strings(&["", ""]), ", "), ", ");
    assert_eq!(join_with(&strings(&["a", "b"]), ""), "ab");
}

#[test]
fn join_undoes_split() {
    let texts = ["", "a", "\n", "a\nb", "\n\n", "a\n\nb\n"];
    for text in texts {
        assert_eq!(join_with(&split_on(text, '\n'), "\n"), text);
    }
}
