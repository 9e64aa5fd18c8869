use dynamodb_expression::path::{name, Name};
use dynamodb_expression::value::set::{binary_set, string_set};
use dynamodb_expression::value::{
    BinarySet, List, Num, NumSet, Ref, Scalar, StringSet, Value, ValueMap, ValueOrRef, ValueSet,
};

fn strings(items: &[&str]) -> Vec<String> {
    items.iter().map(|s| s.to_string()).collect()
}

fn bytes(items: &[&str]) -> Vec<Vec<u8>> {
    items.iter().map(|s| s.as_bytes().to_vec()).collect()
}

#[test]
fn mod_display() {
    assert_eq!(r#""a""#, Value::new_string(String::from("a")).to_string());
    assert_eq!(r#"1000"#, Value::new_num(1000).to_string());
    assert_eq!(r#"1e3"#, Value::new_num_lower_exp(1000).to_string());
    assert_eq!(r#"1E3"#, Value::new_num_upper_exp(1000).to_string());
    assert_eq!(r#""YQ==""#, Value::new_binary(b"a".to_vec()).to_string());
    assert_eq!("true", Value::new_bool(true).to_string());
    assert_eq!("NULL", Value::new_null().to_string());

    // Sets are unordered
    assert_eq!(
        r#"["a", "b", "c"]"#,
        Value::new_string_set(StringSet::new(strings(&["a", "c", "b"]))).to_string()
    );
    assert_eq!(
        r#"[-7, 1e3, 42]"#,
        Value::new_num_set(NumSet::new(vec![Num::new_lower_exp(1000), Num::new(42), Num::new(-7)]))
            .to_string()
    );
    assert_eq!(
        r#"["YQ==", "Yg==", "Yw=="]"#,
        Value::new_binary_set(BinarySet::new(bytes(&["a", "b", "c"]))).to_string()
    );

    assert_eq!(
        r#"[NULL, 8, "a string"]"#,
        Value::new_list(List::new(vec![
            Value::new_null(),
            Value::new_num(8),
            Value::new_string(String::from("a string")),
        ]))
        .to_string()
    );

    assert_eq!(
        r#"{n: 8, null: NULL, s: "a string"}"#,
        Value::new_map(ValueMap::new(vec![
            (Name::from(String::from("s")), Value::new_string(String::from("a string"))),
            (Name::from(String::from("n")), Value::new_num(8)),
            (Name::from(String::from("null")), Value::new_null()),
        ]))
        .to_string()
    );
}

#[test]
fn list_display() {
    let mut list = List::new(vec![Value::from("a")]);
    assert_eq!(r#"["a"]"#, list.to_string());

    list.list.push(Value::from(Num::new(42)));
    assert_eq!(r#"["a", 42]"#, list.to_string());
}

#[test]
fn scalar_string() {
    let fish: &str = "fish";

    let actual = Scalar::new_string(String::from(fish));
    assert_eq!("\"fish\"", actual.to_string());

    let actual = Scalar::from(fish.to_string());
    assert_eq!("\"fish\"", actual.to_string());

    let phish: &&str = &fish;
    let actual = Scalar::from((*phish).to_string());
    assert_eq!("\"fish\"", actual.to_string());

    let phish: String = fish.into();
    let actual = Scalar::from(phish.clone());
    assert_eq!("\"fish\"", actual.to_string());

    let actual = Scalar::from(phish);
    assert_eq!("\"fish\"", actual.to_string());
}

#[test]
fn numeric() {
    let actual = Scalar::new_num(42);
    assert_eq!("42", actual.to_string());

    let actual = Scalar::from(Num::new(42));
    assert_eq!("42", actual.to_string());
}

#[test]
fn boolean() {
    assert_eq!("true", Scalar::new_bool(true).to_string());
    assert_eq!("false", Scalar::new_bool(false).to_string());

    assert_eq!("true", Scalar::from(true).to_string());
    assert_eq!("false", Scalar::from(false).to_string());
}

#[test]
fn binary_vec() {
    let bytes: Vec<u8> = b"fish".into();

    let actual = Scalar::new_binary(bytes.clone());
    assert_eq!(r#""ZmlzaA==""#, actual.to_string());

    let actual = Scalar::new_binary(bytes);
    assert_eq!(r#""ZmlzaA==""#, actual.to_string());
}

#[test]
fn binary_array() {
    let bytes: [u8; 4] = b"fish".to_owned();

    let actual = Scalar::new_binary(bytes.to_vec());
    assert_eq!(r#""ZmlzaA==""#, actual.to_string());
}

#[test]
fn binary_array_ref() {
    let bytes: &[u8; 4] = b"fish";

    let actual = Scalar::new_binary(bytes.to_vec());
    assert_eq!(r#""ZmlzaA==""#, actual.to_string());
}

#[test]
fn binary_slice() {
    let bytes: &[u8] = &b"fish"[..];

    let actual = Scalar::new_binary(bytes.to_vec());
    assert_eq!(r#""ZmlzaA==""#, actual.to_string());
}

#[test]
fn null() {
    assert_eq!("NULL", Scalar::Null.to_string());
    assert_eq!("NULL", Scalar::new_null().to_string());
}

#[test]
fn mod_string_set_display() {
    let set = ValueSet::new_string_set(StringSet::new(strings(&[
        "foo",
        "bar",
        "!@#$%^&*()-=_+\"'{}[]\\|;:<>,./?`~",
    ])));
    assert_eq!(
        r#"["!@#$%^&*()-=_+\"'{}[]\\|;:<>,./?`~", "bar", "foo"]"#,
        set.to_string()
    );

    let deserialized: Vec<String> =
        serde_json::from_str(&set.to_string()).expect("Must be valid JSON");
    assert_eq!(vec!["!@#$%^&*()-=_+\"'{}[]\\|;:<>,./?`~", "bar", "foo"], deserialized);
}

#[test]
fn set_string_set_display() {
    let set = string_set(strings(&["foo", "bar", "!@#$%^&*()-=_+\"'{}[]\\|;:<>,./?`~"]));
    assert_eq!(
        r#"["!@#$%^&*()-=_+\"'{}[]\\|;:<>,./?`~", "bar", "foo"]"#,
        set.to_string()
    );

    let deserialized: Vec<String> =
        serde_json::from_str(&set.to_string()).expect("Must be valid JSON");
    assert_eq!(vec!["!@#$%^&*()-=_+\"'{}[]\\|;:<>,./?`~", "bar", "foo"], deserialized);
}

fn float_num(text: String) -> Num {
    Num::from_string(text)
}

#[test]
fn mod_num_set_display() {
    let set = ValueSet::new_num_set(NumSet::new(vec![
        Num::new(-1),
        Num::new(0),
        Num::new(1),
        Num::new(42),
    ]));
    assert_eq!("[-1, 0, 1, 42]", set.to_string());

    let deserialized: Vec<i32> =
        serde_json::from_str(&set.to_string()).expect("Must be valid JSON");
    assert_eq!(vec![-1, 0, 1, 42], deserialized);

    let set = ValueSet::new_num_set(NumSet::new(vec![
        float_num(format!("{:e}", f32::MIN)),
        float_num(0.0f64.to_string()),
        Num::new(1000),
        float_num(format!("{:E}", f32::MAX)),
        float_num(9.2f64.to_string()),
    ]));
    assert_eq!("[-3.4028235e38, 0, 1000, 3.4028235E38, 9.2]", set.to_string());

    let deserialized: Vec<f32> =
        serde_json::from_str(&set.to_string()).expect("Must be valid JSON");
    assert_eq!(vec![f32::MIN, 0.0, 1000.0, f32::MAX, 9.2], deserialized);
}

#[test]
fn mod_binary_set_display() {
    let set = ValueSet::new_binary_set(BinarySet::new(bytes(&["  > ", "  ? "])));
    assert_eq!(r#"["ICA+IA==", "ICA/IA=="]"#, set.to_string());

    let deserialized: Vec<String> =
        serde_json::from_str(&set.to_string()).expect("Must be valid JSON");
    assert_eq!(vec!["ICA+IA==", "ICA/IA=="], deserialized);
}

#[test]
fn set_binary_set_display() {
    let set = binary_set(bytes(&["  > ", "  ? "]));
    assert_eq!(r#"["ICA+IA==", "ICA/IA=="]"#, set.to_string());

    let deserialized: Vec<String> =
        serde_json::from_str(&set.to_string()).expect("Must be valid JSON");
    assert_eq!(vec!["ICA+IA==", "ICA/IA=="], deserialized);
}

#[test]
fn comparable_with_binary() {
    assert_eq!(r#""YQ==""#, Scalar::new_binary(b"a".to_vec()).to_string());
    assert_eq!(
        r#"["YQ==", "Yg==", "Yw=="]"#,
        ValueSet::new_binary_set(BinarySet::new(bytes(&["a", "b", "c"]))).to_string()
    );

    assert_eq!(r#""YQ==""#, Scalar::new_binary(String::from("a").into_bytes()).to_string());
    assert_eq!(
        r#"["YQ==", "Yg==", "Yw=="]"#,
        ValueSet::new_binary_set(BinarySet::new(
            ["a", "b", "c"].map(|s| String::from(s).into_bytes()).to_vec()
        ))
        .to_string()
    );

    assert_eq!(r#""YQ==""#, Scalar::new_binary("a".as_bytes().to_vec()).to_string());
    assert_eq!(
        r#"["YQ==", "Yg==", "Yw=="]"#,
        ValueSet::new_binary_set(BinarySet::new(vec![
            "a".as_bytes().to_vec(),
            "b".as_bytes().to_vec(),
            "c".as_bytes().to_vec(),
        ]))
        .to_string()
    );

    assert_eq!(r#""YQ==""#, Scalar::new_binary(b"a".to_vec()).to_string());
    assert_eq!(
        r#"["YQ==", "Yg==", "Yw=="]"#,
        ValueSet::new_binary_set(BinarySet::new(vec![b"a".to_vec(), b"b".to_vec(), b"c".to_vec()]))
            .to_string()
    );
}

#[test]
fn display_value() {
    let vr = ValueOrRef::Value(Value::from(Scalar::new_string(String::from("foo"))));
    assert_eq!("\"foo\"", vr.to_string());
}

#[test]
fn display_ref() {
    let vr = ValueOrRef::Ref(Ref::from("foo"));
    assert_eq!(":foo", vr.to_string());
}

#[test]
fn num_formats() {
    assert_eq!("2600", Num::new(2600).to_string());
    assert_eq!("2.6e3", Num::new_lower_exp(2600).to_string());
    assert_eq!("2.6E3", Num::new_upper_exp(2600).to_string());
    assert_eq!("0e0", Num::new_lower_exp(0).to_string());
    assert_eq!("-1.5e1", Num::new_lower_exp(-15).to_string());
    assert_eq!("7e0", Num::new_lower_exp(7).to_string());
    assert_eq!(
        "-170141183460469231731687303715884105728",
        Num::new(i128::MIN).to_string()
    );
    assert_eq!(format!("{:e}", i128::MIN), Num::new_lower_exp(i128::MIN).to_string());
    assert_eq!(format!("{:E}", i128::MAX), Num::new_upper_exp(i128::MAX).to_string());
    assert_eq!("2600", Scalar::new_num(2600).to_string());
    assert_eq!("2.6e3", Scalar::new_num_lower_exp(2600).to_string());
    assert_eq!("2.6E3", Scalar::new_num_upper_exp(2600).to_string());
}

#[test]
fn sets_drop_duplicates_and_sort() {
    let a = StringSet::new(strings(&["b", "a", "b", "ab"]));
    let b = StringSet::new(strings(&["ab", "a", "b"]));
    assert!(a.same(&b));
    assert_eq!(r#"["a", "ab", "b"]"#, ValueSet::new_string_set(a).to_string());

    let mut nums = NumSet::new(vec![Num::new(10), Num::new(9)]);
    nums.insert(Num::new(10));
    nums.insert(Num::new(100));
    assert_eq!("[10, 100, 9]", ValueSet::new_num_set(nums).to_string());

    let bin = BinarySet::new(vec![vec![2u8], vec![1u8, 255], vec![1u8], vec![2u8]]);
    assert_eq!(r#"["AQ==", "Af8=", "Ag=="]"#, ValueSet::new_binary_set(bin).to_string());
}

#[test]
fn map_last_entry_wins() {
    let map = ValueMap::new(vec![
        (name("b"), Value::new_num(1)),
        (name("a"), Value::new_num(2)),
        (name("b"), Value::new_num(3)),
    ]);
    assert_eq!("{a: 2, b: 3}", Value::new_map(map).to_string());
}

#[test]
fn value_equality_and_copies() {
    let a = Value::new_map(ValueMap::new(vec![
        (name("x"), Value::new_list(List::new(vec![Value::new_bool(true), Value::new_null()]))),
        (name("y"), Value::new_string_set(StringSet::new(strings(&["q", "p"])))),
    ]));
    let b = Value::new_map(ValueMap::new(vec![
        (name("y"), Value::new_string_set(StringSet::new(strings(&["p", "q", "p"])))),
        (name("x"), Value::new_list(List::new(vec![Value::new_bool(true), Value::new_null()]))),
    ]));
    assert!(a.same(&b));
    let c = a.clone_value();
    assert!(c.same(&a));
    assert_eq!(a.to_string(), c.to_string());
    assert!(!Value::new_num(1).same(&Value::new_string(String::from("1"))));
    assert!(!Value::new_list(List::new(vec![Value::new_num(1), Value::new_num(2)]))
        .same(&Value::new_list(List::new(vec![Value::new_num(2), Value::new_num(1)]))));
}

#[test]
fn json_escapes_in_strings() {
    assert_eq!(r#""a\"b\\c\nd""#, Value::from("a\"b\\c\nd").to_string());
    assert_eq!(r#"["a\"b"]"#, ValueSet::new_string_set(StringSet::new(strings(&["a\"b"]))).to_string());
}

#[test]
fn json_escapes_control_characters() {
    assert_eq!(
        "\"\\b\\t\\f\\r\\u0001\\u001f\u{7f}\u{e9}\"",
        Value::from("\u{8}\t\u{c}\r\u{1}\u{1f}\u{7f}\u{e9}").to_string()
    );
}

#[test]
fn base64_pads_each_length() {
    assert_eq!(r#""""#, Scalar::new_binary(Vec::new()).to_string());
    assert_eq!(r#""Zg==""#, Scalar::new_binary(b"f".to_vec()).to_string());
    assert_eq!(r#""Zm8=""#, Scalar::new_binary(b"fo".to_vec()).to_string());
    assert_eq!(r#""Zm9v""#, Scalar::new_binary(b"foo".to_vec()).to_string());
    assert_eq!(r#""+/8=""#, Scalar::new_binary(vec![0xfb, 0xff]).to_string());
}
