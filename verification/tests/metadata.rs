use tdlib_rs::bare::bare_checks_end;
use tdlib_rs::metadata::Metadata;
use tdlib_rs::tl::{Category, Definition};

fn def(text: &str) -> Definition {
    Definition::from_str(text).unwrap()
}

fn func(text: &str) -> Definition {
    let mut d = def(text);
    d.category = Category::Functions;
    d
}

fn schema() -> Vec<Definition> {
    vec![
        def("richTextPlain text:string = RichText"),
        def("richTextBold text:RichText = RichText"),
        def("a x:B = A"),
        def("b y:A = B"),
        def("plain z:C = C2"),
        def("c n:int32 = C"),
        def("point x:double y:double = Point"),
        def("location point:point = Location"),
        def("placed p:Point = Placed"),
        def("//@class Hidden @description The hidden class\nhiddenOne = Hidden"),
        func("getPoint = Point"),
    ]
}

#[test]
fn recursion_is_detected() {
    let defs = schema();
    let m = Metadata::new(&defs);
    assert!(m.is_recursive_def(&defs[1]));
    assert!(!m.is_recursive_def(&defs[0]));
    assert!(m.is_recursive_def(&defs[2]));
    assert!(m.is_recursive_def(&defs[3]));
    assert!(!m.is_recursive_def(&defs[4]));
    assert!(!m.is_recursive_def(&defs[10]));
}

#[test]
fn default_derivation() {
    let defs = schema();
    let m = Metadata::new(&defs);
    assert!(m.can_def_implement_default(&defs[6]));
    assert!(m.can_def_implement_default(&defs[7]));
    assert!(!m.can_def_implement_default(&defs[8]));
    assert!(m.can_def_implement_default(&defs[0]));
    assert!(!m.can_def_implement_default(&defs[1]));
    // Functions are not data types.
    assert!(!m.can_def_implement_default(&defs[10]));
}

#[test]
fn constructors_and_class_descriptions() {
    let defs = schema();
    let m = Metadata::new(&defs);
    let rich = m.defs_with_type(&defs[0].ty);
    assert_eq!(rich.len(), 2);
    assert_eq!(rich[0].name, "richTextPlain");
    assert_eq!(rich[1].name, "richTextBold");
    // The function returning `Point` is not a constructor of it.
    assert_eq!(m.defs_with_type(&defs[6].ty).len(), 1);
    assert_eq!(m.class_description("Hidden"), Some("The hidden class"));
    assert_eq!(m.class_description("Point"), None);
}

#[test]
fn default_checks_that_never_end_are_found() {
    assert!(bare_checks_end(&schema()));
    // A constructor that names itself through a bare parameter.
    assert!(!bare_checks_end(&[def("a x:a = A")]));
    assert!(!bare_checks_end(&[def("a x:b = A"), def("b y:int32 z:a = B")]));
    // The check stops at the first parameter that is neither built-in nor bare.
    assert!(bare_checks_end(&[def("a x:Foo y:a = A")]));
    // A cycle through boxed types is never followed.
    assert!(bare_checks_end(&[def("a x:A = A")]));
}

#[test]
fn functions_do_not_change_the_metadata() {
    let defs = schema();
    let types_only: Vec<Definition> = schema()
        .into_iter()
        .filter(|d| d.category == Category::Types)
        .collect();
    let a = Metadata::new(&defs);
    let b = Metadata::new(&types_only);
    for (d, e) in defs.iter().filter(|d| d.category == Category::Types).zip(types_only.iter()) {
        assert_eq!(a.is_recursive_def(d), b.is_recursive_def(e));
        assert_eq!(a.can_def_implement_default(d), b.can_def_implement_default(e));
        assert_eq!(a.defs_with_type(&d.ty).len(), b.defs_with_type(&e.ty).len());
    }
    assert_eq!(a.class_description("Hidden"), b.class_description("Hidden"));
}
