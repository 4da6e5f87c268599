use bugsyth_engine::renderer::text::split_to_words;

fn words(v: &[&str]) -> Vec<String> {
    v.iter().map(|s| s.to_string()).collect()
}

#[test]
fn splits_words_and_spaces() {
    assert_eq!(split_to_words("ab cd"), words(&["ab", " ", "cd"]));
    assert_eq!(split_to_words("a "), words(&["a", " "]));
    assert_eq!(split_to_words(" a"), words(&[" ", "a"]));
    assert_eq!(split_to_words(""), words(&[]));
}

#[test]
fn word_before_a_run_of_spaces_is_emitted_at_its_last_space() {
    assert_eq!(split_to_words("ab  cd"), words(&[" ", "ab", " ", "cd"]));
    assert_eq!(split_to_words("x\ty\nz"), words(&["x", "\t", "y", "\n", "z"]));
}
