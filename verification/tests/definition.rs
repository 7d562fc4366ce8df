use tdlib_rs::tl::{Category, Definition, ParamParseError, Parameter, ParseError, Type};

#[test]
fn parse_empty_def() {
    assert_eq!(Definition::from_str(""), Err(ParseError::Empty));
}

#[test]
fn parse_no_name() {
    assert_eq!(Definition::from_str(" = foo"), Err(ParseError::MissingName));
}

#[test]
fn parse_no_type() {
    assert_eq!(Definition::from_str("foo"), Err(ParseError::MissingType));
    assert_eq!(Definition::from_str("foo = "), Err(ParseError::MissingType));
}

#[test]
fn parse_unimplemented() {
    assert_eq!(
        Definition::from_str("int ? = Int"),
        Err(ParseError::NotImplemented)
    );
}

#[test]
fn parse_valid_definition() {
    let def = Definition::from_str("a=d").unwrap();
    assert_eq!(def.name, "a");
    assert_eq!(def.params.len(), 0);
    assert_eq!(
        def.ty,
        Type {
            name: "d".into(),
            bare: true,
            generic_arg: None,
        }
    );

    let def = Definition::from_str("a=d<e>").unwrap();
    assert_eq!(def.name, "a");
    assert_eq!(def.params.len(), 0);
    assert_eq!(
        def.ty,
        Type {
            name: "d".into(),
            bare: true,
            generic_arg: Some(Box::new("e".parse().unwrap())),
        }
    );

    let def = Definition::from_str("a b:c = d").unwrap();
    assert_eq!(def.name, "a");
    assert_eq!(def.params.len(), 1);
    assert_eq!(
        def.ty,
        Type {
            name: "d".into(),
            bare: true,
            generic_arg: None,
        }
    );
}

#[test]
fn parse_multiline_definition() {
    let def = "
            first lol:param
              = t;
            ";

    assert_eq!(Definition::from_str(def).unwrap().name, "first");

    let def = "
            second
              lol:String
            = t;
            ";

    assert_eq!(Definition::from_str(def).unwrap().name, "second");

    let def = "
            third

              lol:String

            =
                     t;
            ";

    assert_eq!(Definition::from_str(def).unwrap().name, "third");
}

#[test]
fn parse_complete() {
    let def = "
            //@description This is a test description
            name pname:Vector<X> = Type";
    assert_eq!(
        Definition::from_str(def),
        Ok(Definition {
            name: "name".into(),
            description: "This is a test description".into(),
            params: vec![Parameter {
                name: "pname".into(),
                ty: Type {
                    name: "Vector".into(),
                    bare: false,
                    generic_arg: Some(Box::new(Type {
                        name: "X".into(),
                        bare: false,
                        generic_arg: None,
                    })),
                },
                description: String::new(),
            },],
            ty: Type {
                name: "Type".into(),
                bare: false,
                generic_arg: None,
            },
            category: Category::Types,
            class_description: None,
        })
    );
}

#[test]
fn parse_with_class_description() {
    let def = "
            //@class TestClass @description This is a class description
            //@description This is a constructor description
            testConstructor = TestClass";
    let parsed = Definition::from_str(def).unwrap();
    assert_eq!(parsed.name, "testConstructor");
    assert_eq!(parsed.description, "This is a constructor description");
    assert_eq!(
        parsed.class_description,
        Some("This is a class description".into())
    );
}

#[test]
fn test_to_string() {
    let def = "name pname:Vector<X> = Type";
    assert_eq!(Definition::from_str(def).unwrap().to_string(), def);
}

#[test]
fn parse_param_descriptions() {
    let def = "//@description Sends a message
//@chat_id Target chat @description A param named description
sendMessage chat_id:int53 description:string = Message";
    let parsed = Definition::from_str(def).unwrap();
    // A later `@description` overrides an earlier one.
    assert_eq!(parsed.description, "A param named description");
    assert_eq!(parsed.params.len(), 2);
    assert_eq!(parsed.params[0].description, "Target chat");
    assert_eq!(parsed.params[1].description, "");
}

#[test]
fn parse_param_description_key() {
    let def = "//@description Sets it
//@param_description The text
setDescription description:string = Ok";
    let parsed = Definition::from_str(def).unwrap();
    assert_eq!(parsed.description, "Sets it");
    assert_eq!(parsed.params[0].name, "description");
    assert_eq!(parsed.params[0].description, "The text");
}

#[test]
fn parse_invalid_param_errors() {
    assert_eq!(
        Definition::from_str("vector {t:Type} = Vector"),
        Err(ParseError::InvalidParam(ParamParseError::TypeDef { name: "t".into() }))
    );
    assert_eq!(
        Definition::from_str("a {t = B"),
        Err(ParseError::InvalidParam(ParamParseError::MissingDef))
    );
    assert_eq!(
        Definition::from_str("a :int = B"),
        Err(ParseError::InvalidParam(ParamParseError::Empty))
    );
    assert_eq!(
        Definition::from_str("a x:Vector<int = B"),
        Err(ParseError::InvalidParam(ParamParseError::InvalidGeneric))
    );
    assert_eq!(Definition::from_str("a = Vector<int"), Err(ParseError::MissingType));
}

#[test]
fn parse_types_and_params() {
    let t = Type::from_str("Vector<Vector<int32>>").unwrap();
    assert_eq!(t.name, "Vector");
    assert!(!t.bare);
    let inner = t.generic_arg.as_ref().unwrap();
    assert_eq!(inner.name, "Vector");
    assert_eq!(inner.generic_arg.as_ref().unwrap().name, "int32");
    assert!(inner.generic_arg.as_ref().unwrap().bare);
    assert_eq!(t.to_string(), "Vector<Vector<int32>>");
    assert_eq!(Type::from_str(""), Err(ParamParseError::Empty));
    assert_eq!(Type::from_str("<a>"), Err(ParamParseError::Empty));

    let p = Parameter::from_str("x:a:b").unwrap();
    assert_eq!(p.name, "x");
    assert_eq!(p.ty.name, "a");
    assert_eq!(p.to_string(), "x:a");
    assert_eq!(Parameter::from_str("x"), Err(ParamParseError::NotImplemented));
}

#[test]
fn parse_whitespace_only_is_empty() {
    assert_eq!(Definition::from_str(" \n\t "), Err(ParseError::Empty));
}
