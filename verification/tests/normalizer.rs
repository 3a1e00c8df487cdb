use comcom::normalize::format_arguments;

fn strings(words: &[&str]) -> Vec<String> {
    words.iter().map(|w| w.to_string()).collect()
}

#[test]
fn normalize_empty() {
    assert_eq!(format_arguments(Vec::new()), Vec::<String>::new());
}

#[test]
fn normalize_flag_value() {
    assert_eq!(format_arguments(strings(&["-f", "value"])), strings(&["-f value"]));
}

#[test]
fn normalize_flag_flag_value() {
    assert_eq!(
        format_arguments(strings(&["-f", "-g", "value"])),
        strings(&["-f", "-g value"])
    );
}

#[test]
fn normalize_no_flags() {
    assert_eq!(format_arguments(strings(&["a", "b"])), strings(&["a", "b"]));
}

#[test]
fn normalize_prejoined_token() {
    assert_eq!(format_arguments(strings(&["-f value"])), strings(&["-f value"]));
}

#[test]
fn normalize_flag_absorbs_one_value_only() {
    assert_eq!(format_arguments(strings(&["-f", "a", "b"])), strings(&["-f a", "b"]));
}

#[test]
fn normalize_ls_scenario() {
    assert_eq!(format_arguments(strings(&["-l", "/tmp"])), strings(&["-l /tmp"]));
}

#[test]
fn normalize_empty_token_kept() {
    assert_eq!(format_arguments(strings(&[""])), strings(&[""]));
}

#[test]
fn normalize_flag_absorbs_empty_token() {
    assert_eq!(format_arguments(strings(&["-f", ""])), strings(&["-f "]));
}

#[test]
fn normalize_splits_embedded_spaces() {
    assert_eq!(format_arguments(strings(&["a b"])), strings(&["a", "b"]));
}

#[test]
fn normalize_twice_is_once() {
    let once = format_arguments(strings(&["-x", "1", "y", "-z w", "--long", "value"]));
    let twice = format_arguments(once.clone());
    assert_eq!(twice, once);
}

#[test]
fn normalize_double_dash_flag() {
    assert_eq!(
        format_arguments(strings(&["--color", "auto"])),
        strings(&["--color auto"])
    );
}
