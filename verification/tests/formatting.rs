use devtools::formatting::{
    extensions_of, has_extension, is_touched, is_unchanged, outcome, same_digest,
    try_is_unchanged, FormatError, Outcome, CPP_EXT,
};

#[test]
fn default_extensions_are_those_of_sources() {
    assert_eq!(CPP_EXT, ".cpp,.hpp,.tpp,.h,.c,ipp");
    assert_eq!(extensions_of(None), vec![".cpp", ".hpp", ".tpp", ".h", ".c", "ipp"]);
    assert_eq!(extensions_of(Some(".rs,.toml")), vec![".rs", ".toml"]);
    assert_eq!(extensions_of(Some("")), vec![""]);
}

#[test]
fn files_are_chosen_by_their_ending() {
    let ext = extensions_of(None);
    assert!(has_extension("src/main.cpp", &ext));
    assert!(has_extension("a.h", &ext));
    assert!(has_extension("a.c", &ext));
    assert!(has_extension("clipp", &ext));
    assert!(!has_extension("a.rs", &ext));
    assert!(!has_extension("a.cpp.orig", &ext));
    assert!(!has_extension("", &ext));
    assert!(!has_extension("a.cpp", &vec![]));
    assert!(has_extension("anything", &vec![String::new()]));
}

#[test]
fn touched_files_are_new_modified_or_renamed() {
    for bit in [1u32, 2, 8, 128, 256, 2048] {
        assert!(is_touched(bit));
        assert!(is_touched(bit | 4 | 16384));
    }
    for bit in [0u32, 4, 16, 512, 1024, 16384, 32768, 4 | 512] {
        assert!(!is_touched(bit));
    }
}

#[test]
fn content_is_compared_by_digest() {
    assert!(is_unchanged(b"int main() {}\n", b"int main() {}\n"));
    assert!(!is_unchanged(b"int main() {}\n", b"int main() { }\n"));
    assert!(is_unchanged(b"", b""));
    assert!(!is_unchanged(b"", b"\0"));
    assert_eq!(try_is_unchanged(b"a", b"a"), Some(true));
    assert_eq!(try_is_unchanged(b"a", b"b"), Some(false));
    assert!(same_digest(&vec![1, 2, 3], &vec![1, 2, 3]));
    assert!(!same_digest(&vec![1, 2, 3], &vec![1, 2]));
    assert!(!same_digest(&vec![1, 2, 3], &vec![1, 2, 4]));
    assert!(same_digest(&vec![], &vec![]));
}

#[test]
fn outcome_follows_exit_code_and_digest() {
    assert_eq!(outcome(Some(0), true, false), Ok(Outcome::Unchanged));
    assert_eq!(outcome(Some(0), true, true), Ok(Outcome::Unchanged));
    assert_eq!(outcome(Some(0), false, true), Ok(Outcome::WouldFormat));
    assert_eq!(outcome(Some(0), false, false), Ok(Outcome::Formatted));
    assert_eq!(outcome(Some(1), true, false), Err(FormatError::Failed(1)));
    assert_eq!(outcome(Some(-9), false, true), Err(FormatError::Failed(-9)));
    assert_eq!(outcome(None, true, true), Err(FormatError::Killed));
}

#[test]
fn failures_are_put_in_words() {
    assert_eq!(FormatError::Failed(2).message(), "Clang-format process returns error 2");
    assert_eq!(FormatError::Failed(-11).message(), "Clang-format process returns error -11");
    assert_eq!(FormatError::Killed.message(), "Clang-format process terminated by signal");
}
