use dynamodb_expression::key::Key;
use dynamodb_expression::operand::Operand;
use dynamodb_expression::path::{name, Name, Path};
use dynamodb_expression::update::Update;
use dynamodb_expression::value::{Num, Ref, StringOrRef, Value};
use dynamodb_expression::Expression;

fn p(s: &str) -> Path {
    Path::parse(s).unwrap()
}

fn names(items: &[&str]) -> Vec<Name> {
    items.iter().map(|s| name(s)).collect()
}

fn pairs(v: &Option<Vec<(String, String)>>) -> Vec<(String, String)> {
    v.clone().unwrap_or_default()
}

#[test]
fn empty_projection() {
    let expression = Expression::builder().with_projection(Vec::<Name>::new()).build();
    assert_eq!(None, expression.condition_expression);
    assert_eq!(None, expression.filter_expression);
    assert_eq!(None, expression.key_condition_expression);
    assert_eq!(None, expression.projection_expression);
    assert_eq!(None, expression.update_expression);
    assert!(expression.expression_attribute_names.is_none());
    assert!(expression.expression_attribute_values.is_none());
}

#[test]
fn example_with_projection() {
    let expected_names = vec![
        (String::from("#0"), String::from("id")),
        (String::from("#1"), String::from("name")),
    ];

    let expression = Expression::builder().with_projection(names(&["id", "name"])).build();
    assert_eq!(None, expression.condition_expression);
    assert_eq!(None, expression.key_condition_expression);
    assert_eq!(None, expression.update_expression);
    assert_eq!(None, expression.filter_expression);
    assert_eq!(Some(String::from("#0, #1")), expression.projection_expression);
    assert_eq!(expected_names, pairs(&expression.expression_attribute_names));
    assert!(expression.expression_attribute_values.is_none());

    let expression = Expression::builder()
        .with_projection(vec![Name::from(String::from("id")), Name::from(String::from("name"))])
        .build();
    assert_eq!(Some(String::from("#0, #1")), expression.projection_expression);
    assert_eq!(expected_names, pairs(&expression.expression_attribute_names));
}

#[test]
fn scan_input() {
    let expression = Expression::builder()
        .with_filter(
            p("name")
                .begins_with(StringOrRef::from("prefix"))
                .and(p("age").greater_than_or_equal(Operand::from(Num::new(25)))),
        )
        .with_projection(names(&["name", "age"]))
        .build();
    assert_eq!(None, expression.condition_expression);

    let filter = expression
        .filter_expression
        .as_deref()
        .expect("A filter expression should be set");
    assert_eq!("begins_with(#0, :0) AND #1 >= :1", filter);

    let projection = expression
        .projection_expression
        .as_deref()
        .expect("A projection expression should be set");
    assert_eq!("#0, #1", projection);

    let values = expression.expression_attribute_values.expect("values");
    assert_eq!(2, values.len());
    assert_eq!(":0", values[0].0);
    assert_eq!(r#""prefix""#, values[0].1.to_string());
    assert_eq!(":1", values[1].0);
    assert_eq!("25", values[1].1.to_string());
}

#[test]
fn query_input() {
    let expression = Expression::builder()
        .with_filter(
            Path::from(Name::from("name"))
                .attribute_exists()
                .and(Path::from(Name::from("age")).greater_than_or_equal(Operand::from(
                    Num::from_string(2.5f64.to_string()),
                ))),
        )
        .with_projection(names(&["name", "age"]))
        .with_key_condition(Key::from(Path::from(Name::from("id"))).equal(Operand::from(Num::new(42))))
        .build();
    assert_eq!(None, expression.condition_expression);

    let filter = expression
        .filter_expression
        .as_deref()
        .expect("A filter expression should be set");
    assert_ne!("", filter);
    assert_eq!("attribute_exists(#0) AND #1 >= :0", filter);

    let projection = expression
        .projection_expression
        .as_deref()
        .expect("A projection expression should be set");
    assert_eq!("#0, #1", projection);
    assert_eq!(Some(String::from("#2 = :1")), expression.key_condition_expression);
}

#[test]
fn update() {
    let expression = Expression::builder()
        .with_condition(
            p("name")
                .attribute_exists()
                .and(p("age").greater_than_or_equal(Operand::from(Num::new(25)))),
        )
        .build();

    let condition = expression
        .condition_expression
        .as_deref()
        .expect("A condition expression should be set");
    assert_ne!("", condition);
    assert_eq!("attribute_exists(#0) AND #1 >= :0", condition);
}

#[test]
fn names_and_values_are_reused() {
    let expression = Expression::builder()
        .with_condition(
            p("a.b[2]")
                .equal(Operand::from(Num::new(1)))
                .or(p("b").equal(Operand::from(Num::new(1))))
                .or(p("a").equal(Operand::from(Ref::from("given")))),
        )
        .with_update(
            Update::from(p("a").set(Value::from(Num::new(1))))
                .and(Update::from(p("c").math().add(Num::new(2)))),
        )
        .with_projection(names(&["c", "d"]))
        .build();
    assert_eq!(
        Some(String::from("#0.#1[2] = :0 OR #1 = :0 OR #0 = :given")),
        expression.condition_expression
    );
    assert_eq!(Some(String::from("SET #0 = :0, #2 = #2 + :1")), expression.update_expression);
    assert_eq!(Some(String::from("#2, #3")), expression.projection_expression);
    let names = pairs(&expression.expression_attribute_names);
    assert_eq!(
        vec![
            (String::from("#0"), String::from("a")),
            (String::from("#1"), String::from("b")),
            (String::from("#2"), String::from("c")),
            (String::from("#3"), String::from("d")),
        ],
        names
    );
    let values = expression.expression_attribute_values.expect("values");
    assert_eq!(2, values.len());
    assert_eq!("1", values[0].1.to_string());
    assert_eq!("2", values[1].1.to_string());
}

#[test]
fn list_append_before_numbers_source_first() {
    let expression = Expression::builder()
        .with_update(Update::from(
            p("x")
                .list_append()
                .src(p("y"))
                .before()
                .list(dynamodb_expression::value::List::new(vec![Value::from("v")])),
        ))
        .build();
    assert_eq!(
        Some(String::from("SET #0 = list_append(:0, #1)")),
        expression.update_expression
    );
}
