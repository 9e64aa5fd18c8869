use dynamodb_expression::operand::Operand;
use dynamodb_expression::path::{name, Element, Name, Path, PathParseError};
use dynamodb_expression::value::{Num, Ref, StringOrRef, Value};

fn parse(s: &str) -> Path {
    Path::parse(s).unwrap()
}

fn path_of(elements: Vec<Element>) -> Path {
    Path::from_elements(elements)
}

fn debug(p: &Path) -> String {
    format!("{:?}", p)
}

#[test]
fn parse_path() {
    let path = parse("foo");
    assert_eq!(debug(&Path::from(Name::from("foo"))), debug(&path));

    let path = parse("foo[0]");
    assert_eq!(debug(&Path::from(("foo", 0usize))), debug(&path));

    let path = parse("foo[0][3]");
    assert_eq!(debug(&Path::from(("foo", [0usize, 3]))), debug(&path));

    let path = parse("foo[42][37][9]");
    assert_eq!(debug(&Path::from(("foo", [42usize, 37, 9]))), debug(&path));

    let path = parse("foo.bar");
    assert_eq!(
        debug(&path_of(vec![Element::new_name(name("foo")), Element::new_name(name("bar"))])),
        debug(&path)
    );

    let path = parse("foo[42].bar");
    assert_eq!(
        debug(&path_of(vec![
            Element::new_indexed_field(name("foo"), 42usize),
            Element::new_name(name("bar")),
        ])),
        debug(&path)
    );

    let path = parse("foo.bar[37]");
    assert_eq!(
        debug(&path_of(vec![
            Element::new_name(name("foo")),
            Element::new_indexed_field(name("bar"), 37usize),
        ])),
        debug(&path)
    );

    let path = parse("foo[42].bar[37]");
    assert_eq!(
        debug(&path_of(vec![Element::from(("foo", 42usize)), Element::from(("bar", 37usize))])),
        debug(&path)
    );

    let path = parse("foo[42][7].bar[37]");
    assert_eq!(
        debug(&path_of(vec![
            Element::from(("foo", vec![42usize, 7])),
            Element::from(("bar", vec![37usize])),
        ])),
        debug(&path)
    );

    let path = parse("foo[42].bar[37][9]");
    assert_eq!(
        debug(&path_of(vec![
            Element::from(("foo", vec![42usize])),
            Element::from(("bar", vec![37usize, 9])),
        ])),
        debug(&path)
    );

    let path = parse("foo[42][7].bar[37][9]");
    assert_eq!(
        debug(&path_of(vec![
            Element::from(("foo", [42usize, 7])),
            Element::from(("bar", [37usize, 9])),
        ])),
        debug(&path)
    );

    for prefix in ["foo", "foo[0]", "foo.bar", "foo[0]bar", "foo[0]bar[1]"] {
        for bad_index in ["[9", "[]", "][", "[", "]"] {
            let input = format!("{prefix}{bad_index}");

            match Path::parse(&input) {
                Ok(path) => {
                    panic!("Should not have parsed invalid input {input:?} into: {path:?}");
                }
                Err(PathParseError) => { /* Got the expected error */ }
            }
        }
    }

    // Missing the '.' between elements.
    Path::parse("foo[0]bar").unwrap_err();
    Path::parse("foo[0]bar[3]").unwrap_err();

    // A stray index without a name for the field.
    Path::parse("[0]").unwrap_err();
}

#[test]
fn express_path() {
    let _: Element = ("foo", 0usize).into();
    let _: Path = ("foo", 0usize).into();
}

#[test]
fn mod_display_path() {
    let path = path_of(vec![Element::new_name(name("foo")), Element::new_name(name("bar"))]);
    assert_eq!("foo.bar", path.to_string());

    let path = path_of(vec![
        Element::new_name(name("foo")),
        Element::new_indexed_field(name("bar"), 42usize),
    ]);
    assert_eq!("foo.bar[42]", path.to_string());

    let path = path_of(vec![
        Element::new_indexed_field(name("foo"), 42usize),
        Element::new_name(name("bar")),
    ]);
    assert_eq!("foo[42].bar", path.to_string());
}

#[test]
fn element_display_path() {
    let path = Path::from_paths(vec![Path::from(Name::from("foo")), Path::from(Name::from("bar"))]);
    assert_eq!("foo.bar", path.to_string());

    let path = path_of(vec![
        Element::new_name(name("foo")),
        Element::new_indexed_field(name("bar"), 42usize),
    ]);
    assert_eq!("foo.bar[42]", path.to_string());

    let path = path_of(vec![
        Element::new_indexed_field(name("foo"), 42usize),
        Element::new_name(name("bar")),
    ]);
    assert_eq!("foo[42].bar", path.to_string());
}

#[test]
fn display_name() {
    let path = Element::new_name(name("foo"));
    assert_eq!("foo", path.to_string());
}

#[test]
fn display_indexed() {
    // From a usize
    let path = Element::new_indexed_field(name("foo"), 42usize);
    assert_eq!("foo[42]", path.to_string());

    // From an array of usize
    let path = Element::new_indexed_field(name("foo"), [42usize]);
    assert_eq!("foo[42]", path.to_string());

    // From a slice of usize
    let path = Element::new_indexed_field(name("foo"), &([42usize, 37, 9])[..]);
    assert_eq!("foo[42][37][9]", path.to_string());
}

#[test]
fn mod_size() {
    assert_eq!(
        "size(a) = 0",
        parse("a").size().equal(Operand::from(Num::new(0))).to_string()
    );
}

#[test]
fn element_size() {
    assert_eq!(
        "size(a) = 0",
        parse("a").size().equal(Operand::from(Num::new(0))).to_string()
    );
}

#[test]
fn mod_begins_with_string() {
    let begins_with =
        Path::new_indexed_field(name("foo"), 3usize).begins_with(StringOrRef::from("foo"));
    assert_eq!(r#"begins_with(foo[3], "foo")"#, begins_with.to_string());

    let begins_with = Path::new_indexed_field(name("foo"), 3usize)
        .begins_with(StringOrRef::from(String::from("foo")));
    assert_eq!(r#"begins_with(foo[3], "foo")"#, begins_with.to_string());

    let begins_with = Path::new_indexed_field(name("foo"), 3usize)
        .begins_with(StringOrRef::from(String::from("foo").as_str()));
    assert_eq!(r#"begins_with(foo[3], "foo")"#, begins_with.to_string());

    let begins_with =
        Path::new_indexed_field(name("foo"), 3usize).begins_with(StringOrRef::from(*&"foo"));
    assert_eq!(r#"begins_with(foo[3], "foo")"#, begins_with.to_string());
}

#[test]
fn mod_begins_with_value_ref() {
    let begins_with = Path::new_indexed_field(name("foo"), 3usize)
        .begins_with(StringOrRef::from(Ref::new(String::from("prefix"))));
    assert_eq!("begins_with(foo[3], :prefix)", begins_with.to_string());
}

#[test]
fn in_() {
    let condition = Path::new_name(name("name")).in_(vec![
        Operand::from(Value::from("Jack")),
        Operand::from(Value::from("Jill")),
    ]);
    assert_eq!(r#"name IN ("Jack","Jill")"#, condition.to_string());
}

#[test]
fn contains() {
    // String
    let condition = Path::new_name(name("foo")).contains(Value::from("Quinn"));
    assert_eq!(r#"contains(foo, "Quinn")"#, condition.to_string());

    // Number
    let condition = Path::new_name(name("foo")).contains(Value::from(Num::new(42)));
    assert_eq!(r#"contains(foo, 42)"#, condition.to_string());

    // Binary
    let condition = Path::new_name(name("foo")).contains(Value::new_binary(b"fish".to_vec()));
    assert_eq!(r#"contains(foo, "ZmlzaA==")"#, condition.to_string());
}

#[test]
fn empty() {
    assert!(Path::default().is_empty());
    assert!(Path::from_elements(Vec::<Element>::new()).is_empty());
    assert!(Path::from_paths(Vec::<Path>::new()).is_empty());
}

#[test]
fn from_iter() {
    let path = Path::from_paths(vec![Path::from(Name::from("foo")), Path::from(Name::from("bar"))]);
    assert_eq!("foo.bar", path.to_string());
    assert_eq!(
        debug(&path_of(vec![Element::new_name(name("foo")), Element::new_name(name("bar"))])),
        debug(&path)
    );

    let path = Path::from_paths(vec![Path::from(("foo", 42usize)), Path::from(("bar", 37usize))]);
    assert_eq!("foo[42].bar[37]", path.to_string());
    assert_eq!(
        debug(&path_of(vec![
            Element::new_indexed_field(name("foo"), 42usize),
            Element::new_indexed_field(name("bar"), 37usize),
        ])),
        debug(&path)
    );

    let path = Path::from_paths(vec![
        Path::from(("foo", vec![42usize, 7])),
        Path::from(("bar", vec![37usize])),
    ]);
    assert_eq!("foo[42][7].bar[37]", path.to_string());
    assert_eq!(
        debug(&path_of(vec![
            Element::new_indexed_field(name("foo"), [42usize, 7]),
            Element::new_indexed_field(name("bar"), 37usize),
        ])),
        debug(&path)
    );

    let path = Path::from_paths(vec![
        Path::from(("foo", [42usize, 7])),
        Path::from(("bar", [37usize, 9])),
    ]);
    assert_eq!("foo[42][7].bar[37][9]", path.to_string());
    assert_eq!(
        debug(&path_of(vec![
            Element::new_indexed_field(name("foo"), [42usize, 7]),
            Element::new_indexed_field(name("bar"), [37usize, 9]),
        ])),
        debug(&path)
    );

    let path = path_of(vec![
        Element::new_name(name("foo")),
        Element::new_indexed_field(name("bar"), 42usize),
    ]);
    assert_eq!("foo.bar[42]", path.to_string());

    let path = Path::from_paths(vec![parse("foo.bar[42]"), parse("baz.quux")]);
    assert_eq!("foo.bar[42].baz.quux", path.to_string());
    assert_eq!(
        debug(&path_of(vec![
            Element::new_name(name("foo")),
            Element::new_indexed_field(name("bar"), 42usize),
            Element::new_name(name("baz")),
            Element::new_name(name("quux")),
        ])),
        debug(&path)
    );
}

fn added(mut left: Path, right: Path) -> Path {
    left.append(right);
    left
}

#[test]
fn add() {
    let path = added(parse("foo"), Path::from(Name::from("bar")));
    assert_eq!("foo.bar", path.to_string());

    let path = added(parse("foo[42]"), Path::from(("bar", 37usize)));
    assert_eq!("foo[42].bar[37]", path.to_string());

    let path = added(parse("foo[42][7]"), Path::from(("bar", vec![37usize])));
    assert_eq!("foo[42][7].bar[37]", path.to_string());

    let path = added(parse("foo[42][7]"), Path::from(("bar", [37usize, 9])));
    assert_eq!("foo[42][7].bar[37][9]", path.to_string());

    let path = added(parse("foo"), Path::from(Element::new_indexed_field(name("bar"), 42usize)));
    assert_eq!("foo.bar[42]", path.to_string());

    let path = added(parse("foo.bar[42]"), parse("baz.quux"));
    assert_eq!("foo.bar[42].baz.quux", path.to_string());
    assert_eq!(
        debug(&path_of(vec![
            Element::new_name(name("foo")),
            Element::new_indexed_field(name("bar"), 42usize),
            Element::new_name(name("baz")),
            Element::new_name(name("quux")),
        ])),
        debug(&path)
    );
}

#[test]
fn add_assign() {
    let mut path = parse("foo");
    path.append(Path::from(Name::from("bar")));
    assert_eq!("foo.bar", path.to_string());

    let mut path = parse("foo[42]");
    path.append(Path::from(("bar", 37usize)));
    assert_eq!("foo[42].bar[37]", path.to_string());

    let mut path = parse("foo[42][7]");
    path.append(Path::from(("bar", vec![37usize])));
    assert_eq!("foo[42][7].bar[37]", path.to_string());

    let mut path = parse("foo[42][7]");
    path.append(Path::from(("bar", [37usize, 9])));
    assert_eq!("foo[42][7].bar[37][9]", path.to_string());

    let mut path = parse("foo");
    path.append(Path::from(Element::new_indexed_field(name("bar"), 42usize)));
    assert_eq!("foo.bar[42]", path.to_string());

    let mut path = parse("foo.bar[42]");
    path.append(parse("baz.quux"));
    assert_eq!("foo.bar[42].baz.quux", path.to_string());
}

#[test]
fn parse_edge_cases() {
    // No brackets at all: the whole text is the name, even when empty.
    assert_eq!("", parse("").to_string());
    assert_eq!("a.", parse("a.").to_string());
    // Indexes accept a leading `+`, as `usize::from_str` does.
    assert_eq!("foo[3]", parse("foo[+3]").to_string());
    // An index must fit in a usize.
    assert!(Path::parse("foo[99999999999999999999999999]").is_err());
    assert!(Path::parse("foo[-1]").is_err());
    assert!(Path::parse("fo]o[1]").is_err());
    assert_eq!("invalid document path", PathParseError.to_string());
}

#[test]
fn clone_path_renders_the_same() {
    let path = parse("foo[1][2].bar");
    assert_eq!(path.to_string(), path.clone_path().to_string());
}

#[test]
fn render_then_parse_round_trip() {
    for text in ["foo[3][7].bar[2].baz", "a", "a.b.c", "x[0]", "long_name[18446744073709551615].y"] {
        let path = parse(text);
        assert_eq!(text, path.to_string());
        assert_eq!(debug(&path), debug(&parse(&path.to_string())));
    }
    let built = path_of(vec![
        Element::new_indexed_field(name("foo"), [3usize, 7]),
        Element::new_name(name("bar")),
    ]);
    assert_eq!(debug(&built), debug(&parse(&built.to_string())));
}

#[test]
fn into_name_only_for_single_names() {
    assert_eq!("foo", parse("foo").into_name().unwrap().to_string());
    assert_eq!("foo[1]", parse("foo[1]").into_name().unwrap_err().to_string());
    assert_eq!("a.b", parse("a.b").into_name().unwrap_err().to_string());
}
