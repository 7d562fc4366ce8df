use tdlib_rs::stats::{schema_stats, top_classes};
use tdlib_rs::tl::{Category, Definition};

fn def(text: &str) -> Definition {
    Definition::from_str(text).unwrap()
}

fn func(text: &str) -> Definition {
    let mut d = def(text);
    d.category = Category::Functions;
    d
}

fn classes(v: &[(&str, usize)]) -> Vec<(String, usize)> {
    v.iter().map(|(n, c)| (n.to_string(), *c)).collect()
}

#[test]
fn counts_of_a_schema() {
    let defs = vec![def("a = A"), def("c = C"), def("b = A"), func("f = A")];
    let s = schema_stats(&defs);
    assert_eq!(s.types, 3);
    assert_eq!(s.functions, 1);
    assert_eq!(s.classes, classes(&[("A", 2), ("C", 1)]));
    let total: usize = s.classes.iter().map(|c| c.1).sum();
    assert_eq!(total, s.types);
}

#[test]
fn empty_schema_has_no_classes() {
    let s = schema_stats(&[]);
    assert_eq!(s.types, 0);
    assert_eq!(s.functions, 0);
    assert!(s.classes.is_empty());
}

#[test]
fn top_classes_most_first() {
    let cs = classes(&[("X", 1), ("Y", 2), ("Z", 2), ("W", 5)]);
    assert_eq!(top_classes(&cs, 1), classes(&[("W", 5)]));
    assert_eq!(top_classes(&cs, 3), classes(&[("W", 5), ("Y", 2), ("Z", 2)]));
    assert_eq!(
        top_classes(&cs, 10),
        classes(&[("W", 5), ("Y", 2), ("Z", 2), ("X", 1)])
    );
    assert_eq!(top_classes(&cs, 0), classes(&[]));
}
