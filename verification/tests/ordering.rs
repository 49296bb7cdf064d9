use devtools::order::{comes_before, ranking, Ranked, Texts};
use devtools::text::chars_of;

fn before(a: &str, b: &str) -> bool {
    comes_before(&chars_of(a), &chars_of(b))
}

fn texts(items: &[&str]) -> Texts {
    let mut t = Texts::new();
    for i in items {
        t.push(i);
    }
    t
}

#[test]
fn alphabetical_order_goes_by_first_difference() {
    assert!(before("a", "b"));
    assert!(!before("b", "a"));
    assert!(before("abc", "abd"));
    assert!(before("ab", "abc"));
    assert!(!before("abc", "ab"));
    assert!(before("", "a"));
    assert!(!before("a", ""));
    assert!(!before("", ""));
    assert!(!before("same", "same"));
    assert!(before("Z", "a"));
    assert!(before("a", "é"));
    assert!(before("src\\main.cpp", "src\\util\\x.cpp"));
}

#[test]
fn alphabetical_order_agrees_with_string_order() {
    let words = ["", "a", "A", "ab", "abc", "b", "ba", "é", "e", "zz", "z", "src\\a", "src"];
    for a in words {
        for b in words {
            assert_eq!(before(a, b), a < b, "{a:?} {b:?}");
        }
    }
}

#[test]
fn texts_rank_equal_texts_by_place() {
    let t = texts(&["b", "a", "b", "a"]);
    assert_eq!(t.size(), 4);
    assert!(t.goes_first(1, 0));
    assert!(!t.goes_first(0, 1));
    assert!(t.goes_first(0, 2));
    assert!(!t.goes_first(2, 0));
    assert!(!t.goes_first(2, 2));
    assert!(t.goes_first(1, 3));
    assert_eq!(ranking(&t), vec![1, 3, 0, 2]);
}

#[test]
fn ranking_sorts_texts() {
    assert_eq!(ranking(&texts(&[])), Vec::<usize>::new());
    assert_eq!(ranking(&texts(&["x"])), vec![0]);
    assert_eq!(ranking(&texts(&["pear", "apple", "fig", "apple pie", "Fig"])), vec![4, 1, 3, 2, 0]);
    let mut words = Vec::new();
    let mut x: u32 = 7;
    for _ in 0..300 {
        x = x.wrapping_mul(1103515245).wrapping_add(12345);
        words.push(format!("{}", (x >> 16) % 50));
    }
    let refs: Vec<&str> = words.iter().map(|w| w.as_str()).collect();
    let order = ranking(&texts(&refs));
    let mut expected: Vec<usize> = (0..words.len()).collect();
    expected.sort_by(|a, b| words[*a].cmp(&words[*b]));
    assert_eq!(order, expected);
}
