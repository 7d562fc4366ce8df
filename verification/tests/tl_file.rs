use tdlib_rs::tl::file::{parse_tl_definitions, tl_file_readable};
use tdlib_rs::tl::{parse_tl_file, Category, Definition, Parameter, ParseError, Type};

const FILE: &str = "//@description A value\n//@x The x\na x:int32 = A;\n\n---functions---\n\n//@description Gets an A\ngetA = A;\n---bogus---\nz = Z;\n;\n---types---\nb = B;\n";

#[test]
fn file_entries_and_categories() {
    let results = parse_tl_file(FILE);
    assert_eq!(results.len(), 4);
    let a = results[0].as_ref().unwrap();
    assert_eq!(a.name, "a");
    assert_eq!(a.description, "A value");
    assert_eq!(a.params[0].description, "The x");
    assert_eq!(a.category, Category::Types);
    let get_a = results[1].as_ref().unwrap();
    assert_eq!(get_a.name, "getA");
    assert_eq!(get_a.description, "Gets an A");
    assert_eq!(get_a.category, Category::Functions);
    assert_eq!(results[2], Err(ParseError::UnknownSeparator));
    let b = results[3].as_ref().unwrap();
    assert_eq!(b.name, "b");
    assert_eq!(b.category, Category::Types);
}

#[test]
fn only_parsed_definitions_are_kept() {
    let defs = parse_tl_definitions(FILE);
    let names: Vec<&str> = defs.iter().map(|d| d.name.as_str()).collect();
    assert_eq!(names, vec!["a", "getA", "b"]);
}

#[test]
fn blank_pieces_are_skipped() {
    assert_eq!(parse_tl_file("").len(), 0);
    assert_eq!(parse_tl_file(" ;\n ; ").len(), 0);
    let results = parse_tl_file("foo;");
    assert_eq!(results, vec![Err(ParseError::MissingType)]);
}

#[test]
fn readability_of_files() {
    assert!(tl_file_readable(FILE));
    assert!(!tl_file_readable("a = B;\n//@description"));
    assert!(tl_file_readable("a = B;"));
}

#[test]
fn printed_definitions_read_back() {
    let text = "name pname:Vector<X> other:int32 = Type";
    let d = Definition::from_str(text).unwrap();
    assert_eq!(d.to_string(), text);
    let again = Definition::from_str(d.to_string().as_str()).unwrap();
    assert_eq!(again, d);
    let t = Type::from_str("vector<vector<int64>>").unwrap();
    assert_eq!(t.to_string(), "vector<vector<int64>>");
    assert_eq!(Type::from_str(t.to_string().as_str()).unwrap(), t);
}

#[test]
fn printed_parameters_read_back() {
    let p = Parameter::from_str("ids:vector<int64>").unwrap();
    assert_eq!(p.to_string(), "ids:vector<int64>");
    assert_eq!(Parameter::from_str(p.to_string().as_str()).unwrap(), p);
}
