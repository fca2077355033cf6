use envlint::keys::{absent_from, has_key, is_entry_line, key_of, keys_of};

fn strings(items: &[&str]) -> Vec<String> {
    items.iter().map(|s| s.to_string()).collect()
}

#[test]
fn entry_lines() {
    assert!(is_entry_line("A=1"));
    assert!(is_entry_line("A"));
    assert!(is_entry_line("=1"));
    assert!(is_entry_line(" #A=1"));
    assert!(is_entry_line("\r"));
    assert!(!is_entry_line(""));
    assert!(!is_entry_line("#"));
    assert!(!is_entry_line("#A=1"));
}

#[test]
fn key_stands_before_the_first_equals() {
    assert_eq!(key_of("A=1"), "A");
    assert_eq!(key_of("A=1=2"), "A");
    assert_eq!(key_of("A="), "A");
    assert_eq!(key_of("=1"), "");
    assert_eq!(key_of("NAME"), "NAME");
    assert_eq!(key_of(" A = 1"), " A ");
    assert_eq!(key_of("export A=1"), "export A");
    assert_eq!(key_of("clé=valeur"), "clé");
    assert_eq!(key_of(""), "");
}

#[test]
fn keys_in_line_order() {
    assert_eq!(keys_of("B=2\nA=1\nB=3"), strings(&["B", "A", "B"]));
    assert_eq!(keys_of("A=1\n"), strings(&["A"]));
    assert_eq!(keys_of("\n#X=1\nA=1\n\nB\n#\n=v"), strings(&["A", "B", ""]));
    assert_eq!(keys_of(""), strings(&[]));
    assert_eq!(keys_of("#only a comment"), strings(&[]));
    assert_eq!(keys_of("A=1\r\nB\r\n"), strings(&["A", "B\r"]));
    assert_eq!(keys_of("A=1\r\n\r\nB"), strings(&["A", "\r", "B"]));
}

#[test]
fn membership_of_a_key() {
    let keys = strings(&["A", "B", ""]);
    assert!(has_key(&keys, &"A".to_string()));
    assert!(has_key(&keys, &"".to_string()));
    assert!(!has_key(&keys, &"a".to_string()));
    assert!(!has_key(&keys, &"AB".to_string()));
    assert!(!has_key(&strings(&[]), &"A".to_string()));
}

#[test]
fn absent_keys_keep_order_and_number() {
    let keys = strings(&["D", "A", "C", "D", "B"]);
    let among = strings(&["B", "A", "A"]);
    assert_eq!(absent_from(&keys, &among), strings(&["D", "C", "D"]));
    assert_eq!(absent_from(&among, &keys), strings(&[]));
    assert_eq!(absent_from(&keys, &strings(&[])), keys);
    assert_eq!(absent_from(&strings(&[]), &keys), strings(&[]));
}
