use dynamodb_expression::condition::{
    equal, greater_than, greater_than_or_equal, less_than, less_than_or_equal, not_equal, And,
    BeginsWith, Comparator, Condition, Not, Or, Type,
};
use dynamodb_expression::key::Key;
use dynamodb_expression::operand::Operand;
use dynamodb_expression::path::{name, Name, Path};
use dynamodb_expression::value::{Ref, StringOrRef};

fn p(s: &str) -> Path {
    Path::parse(s).unwrap()
}

fn op(s: &str) -> Operand {
    Operand::from(p(s))
}

/// `a > b`
fn cmp_a_gt_b() -> Condition {
    Condition::Comparison(greater_than(op("a"), op("b")))
}

/// `c < d`
fn cmp_c_lt_d() -> Condition {
    Condition::Comparison(less_than(op("c"), op("d")))
}

#[test]
fn attribute_type_display_attribute_type() {
    assert_eq!("S", Type::String.to_string());
    assert_eq!("SS", Type::StringSet.to_string());
    assert_eq!("N", Type::Number.to_string());
    assert_eq!("NS", Type::NumberSet.to_string());
    assert_eq!("B", Type::Binary.to_string());
    assert_eq!("BS", Type::BinarySet.to_string());
    assert_eq!("BOOL", Type::Boolean.to_string());
    assert_eq!("NULL", Type::Null.to_string());
    assert_eq!("L", Type::List.to_string());
    assert_eq!("M", Type::MapType.to_string());
}

#[test]
fn comparator_display() {
    assert_eq!("=", Comparator::Eq.to_string());
    assert_eq!("<>", Comparator::Ne.to_string());
    assert_eq!("<", Comparator::Lt.to_string());
    assert_eq!("<=", Comparator::Le.to_string());
    assert_eq!(">", Comparator::Gt.to_string());
    assert_eq!(">=", Comparator::Ge.to_string());
}

#[test]
fn comparison_display() {
    assert_eq!("=", Comparator::Eq.as_str());
    assert_eq!("<>", Comparator::Ne.as_str());
    assert_eq!("<", Comparator::Lt.as_str());
    assert_eq!("<=", Comparator::Le.as_str());
    assert_eq!(">", Comparator::Gt.as_str());
    assert_eq!(">=", Comparator::Ge.as_str());
}

fn name_op(s: &str) -> Operand {
    Operand::from(Name::from(s))
}

#[test]
fn eq() {
    assert_eq!("foo = bar", Condition::Comparison(equal(name_op("foo"), name_op("bar"))).to_string());
}

#[test]
fn ne() {
    assert_eq!(
        "foo <> bar",
        Condition::Comparison(not_equal(name_op("foo"), name_op("bar"))).to_string()
    );
}

#[test]
fn lt() {
    assert_eq!(
        "foo < bar",
        Condition::Comparison(less_than(name_op("foo"), name_op("bar"))).to_string()
    );
}

#[test]
fn le() {
    assert_eq!(
        "foo <= bar",
        Condition::Comparison(less_than_or_equal(name_op("foo"), name_op("bar"))).to_string()
    );
}

#[test]
fn gt() {
    assert_eq!(
        "foo > bar",
        Condition::Comparison(greater_than(name_op("foo"), name_op("bar"))).to_string()
    );
}

#[test]
fn ge() {
    assert_eq!(
        "foo >= bar",
        Condition::Comparison(greater_than_or_equal(name_op("foo"), name_op("bar"))).to_string()
    );
}

#[test]
fn and_and() {
    let a = Path::new_name(name("a"));
    let b = Path::new_name(name("b"));
    let c = Path::new_name(name("c"));
    let d = Path::new_name(name("d"));

    let condition = And {
        left: Box::new(a.greater_than(Operand::from(b))),
        right: Box::new(c.less_than(Operand::from(d))),
    };
    assert_eq!("a > b AND c < d", Condition::And(condition).to_string());
}

#[test]
fn or_or() {
    let condition = Or {
        left: Box::new(p("a").greater_than(op("b"))),
        right: Box::new(p("c").less_than(op("d"))),
    };
    assert_eq!("a > b OR c < d", Condition::Or(condition).to_string());
}

#[test]
fn display() {
    assert_eq!("a > b", cmp_a_gt_b().to_string());
    assert_eq!("c < d", cmp_c_lt_d().to_string());
}

#[test]
fn mod_and() {
    let condition = p("a").greater_than(op("b")).and(p("c").less_than(op("d")));
    assert_eq!("a > b AND c < d", condition.to_string());
}

#[test]
fn mod_or() {
    let condition = p("a").greater_than(op("b")).or(p("c").less_than(op("d")));
    assert_eq!("a > b OR c < d", condition.to_string());
}

#[test]
fn mod_not() {
    let condition = p("a").greater_than(op("b")).not();
    assert_eq!("NOT a > b", condition.to_string());
}

#[test]
fn not_operator() {
    let condition = p("a").greater_than(op("b")).not();
    assert_eq!("NOT a > b", condition.to_string());
}

#[test]
fn not_display() {
    assert_eq!("NOT a > b", cmp_a_gt_b().not().to_string());
}

fn copy_of_cmp_a_gt_b() -> Condition {
    cmp_a_gt_b()
}

#[test]
fn not_expression() {
    let expr = cmp_a_gt_b();

    for i in 0..3 {
        let mut wrapped = copy_of_cmp_a_gt_b().not();
        for _ in 0..i {
            wrapped = wrapped.not();
        }

        assert_eq!(
            match i {
                0 => format!("NOT {}", expr.to_string()),
                1 => format!("NOT NOT {}", expr.to_string()),
                2 => format!("NOT NOT NOT {}", expr.to_string()),
                _ => unreachable!(),
            },
            wrapped.to_string(),
        );
    }
}

#[test]
fn not_not_parens() {
    let expr = cmp_a_gt_b();

    for i in 0..3 {
        let mut wrapped = Not::new(copy_of_cmp_a_gt_b());
        for _ in 0..i {
            wrapped = Not::new(Condition::Not(wrapped).parenthesize().parenthesize());
        }

        let expected_wrapped = match i {
            0 => format!("NOT {}", expr.to_string()),
            1 => format!("NOT ((NOT {}))", expr.to_string()),
            2 => format!("NOT ((NOT ((NOT {}))))", expr.to_string()),
            _ => unreachable!(),
        };

        assert_eq!(expected_wrapped, Condition::Not(wrapped).to_string());
    }
}

#[test]
fn not_normalize_variants() {
    let wrapped = cmp_a_gt_b()
        .parenthesize()
        .parenthesize()
        .parenthesize()
        .not()
        .parenthesize()
        .parenthesize()
        .parenthesize();
    assert_eq!("(((NOT (((a > b))))))", wrapped.to_string());

    let wrapped = cmp_a_gt_b().parenthesize().parenthesize().parenthesize().not().not();
    assert_eq!("NOT NOT (((a > b)))", wrapped.to_string());

    let wrapped = cmp_a_gt_b()
        .parenthesize()
        .parenthesize()
        .parenthesize()
        .not()
        .parenthesize()
        .not();
    assert_eq!("NOT (NOT (((a > b))))", wrapped.to_string());

    let wrapped = cmp_a_gt_b().parenthesize().parenthesize().parenthesize().not().not().not();
    assert_eq!("NOT NOT NOT (((a > b)))", wrapped.to_string());
}

#[test]
fn parentheses() {
    let expr = cmp_a_gt_b();

    for i in 0..3 {
        let mut wrapped = copy_of_cmp_a_gt_b().parenthesize();
        for _ in 0..i {
            wrapped = wrapped.parenthesize();
        }

        assert_eq!(
            match i {
                0 => format!("({})", expr.to_string()),
                1 => format!("(({}))", expr.to_string()),
                2 => format!("((({})))", expr.to_string()),
                _ => unreachable!(),
            },
            wrapped.to_string(),
            "The `Display` output wasn't what was expected."
        );
    }
}

#[test]
fn begins_with_string() {
    let begins_with = BeginsWith::new(p("foo[3]"), StringOrRef::from("foo"));
    assert_eq!(r#"begins_with(foo[3], "foo")"#, Condition::BeginsWith(begins_with).to_string());

    let begins_with = BeginsWith::new(p("foo[3]"), StringOrRef::from(String::from("foo")));
    assert_eq!(r#"begins_with(foo[3], "foo")"#, Condition::BeginsWith(begins_with).to_string());

    let begins_with =
        BeginsWith::new(p("foo[3]"), StringOrRef::from(String::from("foo").as_str()));
    assert_eq!(r#"begins_with(foo[3], "foo")"#, Condition::BeginsWith(begins_with).to_string());

    let begins_with = BeginsWith::new(p("foo[3]"), StringOrRef::from(*&"foo"));
    assert_eq!(r#"begins_with(foo[3], "foo")"#, Condition::BeginsWith(begins_with).to_string());
}

#[test]
fn value_ref() {
    let begins_with = BeginsWith::new(p("foo[3]"), StringOrRef::from(Ref::from("prefix")));
    assert_eq!("begins_with(foo[3], :prefix)", Condition::BeginsWith(begins_with).to_string());
}

#[test]
fn key_begins_with_string() {
    let begins_with = Key::from(p("foo")).begins_with(StringOrRef::from("foo"));
    assert_eq!(r#"begins_with(foo, "foo")"#, begins_with.to_string());

    let begins_with = Key::from(p("foo")).begins_with(StringOrRef::from(String::from("foo")));
    assert_eq!(r#"begins_with(foo, "foo")"#, begins_with.to_string());

    let begins_with =
        Key::from(p("foo")).begins_with(StringOrRef::from(String::from("foo").as_str()));
    assert_eq!(r#"begins_with(foo, "foo")"#, begins_with.to_string());

    let begins_with = Key::from(p("foo")).begins_with(StringOrRef::from(*&"foo"));
    assert_eq!(r#"begins_with(foo, "foo")"#, begins_with.to_string());
}

#[test]
fn key_begins_with_value_ref() {
    let begins_with =
        Key::from(p("foo")).begins_with(StringOrRef::from(Ref::new(String::from("prefix"))));
    assert_eq!("begins_with(foo, :prefix)", begins_with.to_string());
}

fn between(a: &str, b: &str, c: &str) -> Condition {
    p(a).between(op(b), op(c))
}

fn in_(a: &str, items: &[&str]) -> Condition {
    p(a).in_(items.iter().map(|s| op(s)).collect())
}

#[test]
fn display_comparison() {
    assert_eq!("a > b", p("a").greater_than(op("b")).to_string());
    assert_eq!("c < d", p("c").less_than(op("d")).to_string());
}

#[test]
fn display_between() {
    assert_eq!("a BETWEEN b AND c", between("a", "b", "c").to_string());
    assert_eq!("d BETWEEN e AND f", between("d", "e", "f").to_string());
}

#[test]
fn display_in() {
    assert_eq!("a IN (b,c,d)", in_("a", &["b", "c", "d"]).to_string());
    assert_eq!("e IN (f)", in_("e", &["f"]).to_string());
}

#[test]
fn display_or() {
    assert_eq!(
        "a >= b OR c <> d",
        p("a").greater_than_or_equal(op("b")).or(p("c").not_equal(op("d"))).to_string()
    );
    assert_eq!(
        "a BETWEEN b AND c OR d IN (e,f)",
        between("a", "b", "c").or(in_("d", &["e", "f"])).to_string()
    );
}

#[test]
fn display_and() {
    assert_eq!(
        "a >= b AND c <> d",
        p("a").greater_than_or_equal(op("b")).and(p("c").not_equal(op("d"))).to_string()
    );
    assert_eq!(
        "a BETWEEN b AND c AND d IN (e,f)",
        between("a", "b", "c").and(in_("d", &["e", "f"])).to_string()
    );
}

#[test]
fn functions_display() {
    assert_eq!("attribute_exists(foo)", p("foo").attribute_exists().to_string());
    assert_eq!("attribute_not_exists(bar)", p("bar").attribute_not_exists().to_string());
    assert_eq!("attribute_type(foo, SS)", p("foo").attribute_type(Type::StringSet).to_string());
    assert_eq!("size(foo)", p("foo").size().to_string());
    assert_eq!(
        "size(foo) BETWEEN 1 AND 2",
        Condition::Between(p("foo").size().between(
            Operand::from(dynamodb_expression::Num::new(1)),
            Operand::from(dynamodb_expression::Num::new(2))
        ))
        .to_string()
    );
    assert_eq!(
        "a = (b < c)",
        p("a").equal(Operand::from(p("b").less_than(op("c")).parenthesize())).to_string()
    );
}

#[test]
fn key_conditions() {
    let k = Key::from(p("id")).equal(Operand::from(dynamodb_expression::Num::new(42)));
    let r = Key::from(p("range")).between(
        Operand::from(dynamodb_expression::Num::new(1)),
        Operand::from(dynamodb_expression::Num::new(5)),
    );
    assert_eq!("id = 42 AND range BETWEEN 1 AND 5", k.and(r).to_string());
    assert_eq!("id >= :v", p("id").key().greater_than_or_equal(Operand::from(Ref::from("v"))).to_string());
}
