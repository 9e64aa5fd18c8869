use dynamodb_expression::path::{name, Path};
use dynamodb_expression::update::{
    AddAction, DeleteAction,
    Append, Assign, BeforeOrAfter, IfNotExists, ListAppend, Math, SetAction, SetClause,
    SetRemove, Update,
};
use dynamodb_expression::value::{List, Num, StringSet, Value, ValueSet};
use dynamodb_expression::Expression;

fn p(s: &str) -> Path {
    Path::parse(s).unwrap()
}

fn strings(items: &[&str]) -> Vec<String> {
    items.iter().map(|s| s.to_string()).collect()
}

fn list(items: &[&str]) -> List {
    List::new(items.iter().map(|s| Value::from(*s)).collect())
}

#[test]
fn example() {
    let update = Update::from(p("foo").math().add(Num::new(7)));
    assert_eq!("SET foo = foo + 7", update.to_string());

    let update = Update::from(p("foo").if_not_exists().set(Value::from("a value")));
    assert_eq!(r#"SET foo = if_not_exists(foo, "a value")"#, update.to_string());

    let update = Update::from(p("foo").remove());
    assert_eq!(r#"REMOVE foo"#, update.to_string());

    let update = Update::from(p("foo").add(
        ValueSet::new_string_set(StringSet::new(strings(&["a value", "another value"]))).into(),
    ));
    assert_eq!(r#"ADD foo ["a value", "another value"]"#, update.to_string());

    let update = Update::from(
        p("foo").delete(ValueSet::new_string_set(StringSet::new(strings(&["a value"])))),
    );
    assert_eq!(r#"DELETE foo ["a value"]"#, update.to_string());

    let expression = Expression::builder().with_update(update).build();
    assert_eq!(Some(String::from(r#"DELETE #0 :0"#)), expression.update_expression);
}

#[test]
fn sub_attributes() {
    assert_eq!("REMOVE foo.bar", p("foo.bar").remove().to_string());
    assert_eq!("REMOVE foo[3].bar", p("foo[3].bar").remove().to_string());
    assert_eq!("REMOVE foo[3][7]", p("foo[3][7]").remove().to_string());
}

#[test]
fn remove_and() {
    let remove = p("foo").remove().and(Update::from(p("bar").remove()));
    assert_eq!("REMOVE foo, bar", remove.to_string());
}

#[test]
fn append_display() {
    let append = Append::new_with_source(p("foo"), p("bar"), list(&["a", "b"]), BeforeOrAfter::After);
    assert_eq!(r#"foo = list_append(bar, ["a", "b"])"#, append.to_string());

    let append =
        Append::new_with_source(p("foo"), p("bar"), list(&["a", "b"]), BeforeOrAfter::Before);
    assert_eq!(r#"foo = list_append(["a", "b"], bar)"#, append.to_string());

    let append = Append::new_with_self_to_end(p("foo"), list(&["a", "b"]));
    assert_eq!(r#"foo = list_append(foo, ["a", "b"])"#, append.to_string());

    let append = Append::new_with_self_to_beginning(p("foo"), list(&["a", "b"]));
    assert_eq!(r#"foo = list_append(["a", "b"], foo)"#, append.to_string());
}

fn set_of(actions: Vec<SetAction>) -> SetClause {
    SetClause::from_actions(actions)
}

#[test]
fn assign_and() {
    let assign = || -> Assign { p("foo").set(Value::from("a value")) };
    let if_not_exists = || -> IfNotExists { p("bar").if_not_exists().set(Value::from(Num::new(8))) };

    let combined = assign().and(Update::from(if_not_exists()));
    assert_eq!(r#"SET foo = "a value", bar = if_not_exists(bar, 8)"#, combined.to_string());

    let combined = assign().and(Update::from(SetAction::from(if_not_exists())));
    assert_eq!(r#"SET foo = "a value", bar = if_not_exists(bar, 8)"#, combined.to_string());

    let set = set_of(vec![
        SetAction::from(if_not_exists()),
        SetAction::from(p("baz").math().add(Num::new(1))),
    ]);
    let combined = assign().and(Update::from(set));
    assert_eq!(
        r#"SET foo = "a value", bar = if_not_exists(bar, 8), baz = baz + 1"#,
        combined.to_string()
    );

    let combined = assign().and(Update::from(p("quux").remove()));
    assert_eq!(r#"SET foo = "a value" REMOVE quux"#, combined.to_string());

    let combined = assign().and(Update::from(SetRemove::from(p("quux").remove())));
    assert_eq!(r#"SET foo = "a value" REMOVE quux"#, combined.to_string());
}

#[test]
fn if_not_exists_and() {
    let if_not_exists = || -> IfNotExists { Path::new_name(name("foo")).if_not_exists().set(Value::from("a value")) };
    let assign = || -> Assign { Path::new_name(name("bar")).set(Value::from(Num::new(8))) };

    let combined = if_not_exists().and(Update::from(assign()));
    assert_eq!(r#"SET foo = if_not_exists(foo, "a value"), bar = 8"#, combined.to_string());

    let combined = if_not_exists().and(Update::from(SetAction::from(assign())));
    assert_eq!(r#"SET foo = if_not_exists(foo, "a value"), bar = 8"#, combined.to_string());

    let set = set_of(vec![
        SetAction::from(assign()),
        SetAction::from(Path::new_name(name("baz")).math().add(Num::new(1))),
    ]);
    let combined = if_not_exists().and(Update::from(set));
    assert_eq!(
        r#"SET foo = if_not_exists(foo, "a value"), bar = 8, baz = baz + 1"#,
        combined.to_string()
    );

    let combined = if_not_exists().and(Update::from(Path::new_name(name("quux")).remove()));
    assert_eq!(r#"SET foo = if_not_exists(foo, "a value") REMOVE quux"#, combined.to_string());

    let combined =
        if_not_exists().and(Update::from(SetRemove::from(Path::new_name(name("quux")).remove())));
    assert_eq!(r#"SET foo = if_not_exists(foo, "a value") REMOVE quux"#, combined.to_string());
}

#[test]
fn list_append_display() {
    let append = ListAppend::builder(p("foo")).src(p("bar")).after().list(list(&["a", "b"]));
    assert_eq!(r#"foo = list_append(bar, ["a", "b"])"#, append.to_string());

    let append = ListAppend::builder(p("foo")).src(p("bar")).list(list(&["a", "b"]));
    assert_eq!(r#"foo = list_append(bar, ["a", "b"])"#, append.to_string());

    let append = ListAppend::builder(p("foo")).src(p("bar")).before().list(list(&["a", "b"]));
    assert_eq!(r#"foo = list_append(["a", "b"], bar)"#, append.to_string());

    let append = ListAppend::builder(p("foo")).after().list(list(&["a", "b"]));
    assert_eq!(r#"foo = list_append(foo, ["a", "b"])"#, append.to_string());

    let append = ListAppend::builder(p("foo")).list(list(&["a", "b"]));
    assert_eq!(r#"foo = list_append(foo, ["a", "b"])"#, append.to_string());

    let append = ListAppend::builder(p("foo")).before().list(list(&["a", "b"]));
    assert_eq!(r#"foo = list_append(["a", "b"], foo)"#, append.to_string());
}

#[test]
fn list_append_and() {
    let list_append = || -> ListAppend { p("foo").list_append().list(list(&["d", "e", "f"])) };
    let assign = || -> Assign { p("bar").set(Value::from(Num::new(8))) };

    let combined = list_append().and(Update::from(assign()));
    assert_eq!(r#"SET foo = list_append(foo, ["d", "e", "f"]), bar = 8"#, combined.to_string());

    let combined = list_append().and(Update::from(SetAction::from(assign())));
    assert_eq!(r#"SET foo = list_append(foo, ["d", "e", "f"]), bar = 8"#, combined.to_string());

    let set = set_of(vec![SetAction::from(assign()), SetAction::from(p("baz").math().add(Num::new(1)))]);
    let combined = list_append().and(Update::from(set));
    assert_eq!(
        r#"SET foo = list_append(foo, ["d", "e", "f"]), bar = 8, baz = baz + 1"#,
        combined.to_string()
    );

    let combined = list_append().and(Update::from(p("quux").remove()));
    assert_eq!(
        r#"SET foo = list_append(foo, ["d", "e", "f"]) REMOVE quux"#,
        combined.to_string()
    );

    let combined = list_append().and(Update::from(SetRemove::from(p("quux").remove())));
    assert_eq!(
        r#"SET foo = list_append(foo, ["d", "e", "f"]) REMOVE quux"#,
        combined.to_string()
    );
}

#[test]
fn math_and() {
    let math = || -> Math { p("foo").math().add(Num::new(1)) };
    let assign = || -> Assign { p("bar").set(Value::from(Num::new(8))) };

    let combined = math().and(Update::from(assign()));
    assert_eq!(r#"SET foo = foo + 1, bar = 8"#, combined.to_string());

    let combined = math().and(Update::from(SetAction::from(assign())));
    assert_eq!(r#"SET foo = foo + 1, bar = 8"#, combined.to_string());

    let set = set_of(vec![
        SetAction::from(assign()),
        SetAction::from(p("baz").list_append().list(list(&["d", "e", "f"]))),
    ]);
    let combined = math().and(Update::from(set));
    assert_eq!(
        r#"SET foo = foo + 1, bar = 8, baz = list_append(baz, ["d", "e", "f"])"#,
        combined.to_string()
    );

    let combined = math().and(Update::from(p("quux").remove()));
    assert_eq!(r#"SET foo = foo + 1 REMOVE quux"#, combined.to_string());

    let combined = math().and(Update::from(SetRemove::from(p("quux").remove())));
    assert_eq!(r#"SET foo = foo + 1 REMOVE quux"#, combined.to_string());
}

#[test]
fn mod_from() {
    let assign = || -> Assign { p("foo").set(Value::from(Num::new(8))) };
    let if_not_exists: IfNotExists = p("bar").if_not_exists().set(Value::from(Num::new(7)));
    let math: Math = p("baz").math().add(Num::new(1));
    let list_append: ListAppend = p("quux").list_append().list(list(&["d", "e", "f"]));

    let _set = [
        SetClause::new(SetAction::from(assign())),
        SetClause::new(SetAction::from(if_not_exists)),
        SetClause::new(SetAction::from(math)),
        SetClause::new(SetAction::from(list_append)),
    ];

    let _set = SetClause::new(SetAction::from(assign()));
}

#[test]
fn set_and() {
    let assign = || -> Assign { p("bar").set(Value::from(Num::new(8))) };
    let set = || -> SetClause { SetClause::new(SetAction::from(p("foo").set(Value::from("a value")))) };

    let combined = set().and(Update::from(assign()));
    assert_eq!(r#"SET foo = "a value", bar = 8"#, combined.to_string());

    let combined = set().and(Update::from(SetAction::from(assign())));
    assert_eq!(r#"SET foo = "a value", bar = 8"#, combined.to_string());

    let set_2 = set_of(vec![
        SetAction::from(assign()),
        SetAction::from(p("baz").if_not_exists().set(Value::from(Num::new(7)))),
    ]);
    let combined = set().and(Update::from(set_2));
    assert_eq!(r#"SET foo = "a value", bar = 8, baz = if_not_exists(baz, 7)"#, combined.to_string());

    let combined = set().and(Update::from(p("quux").remove()));
    assert_eq!(r#"SET foo = "a value" REMOVE quux"#, combined.to_string());

    let combined = set().and(Update::from(p("quux").remove()));
    assert_eq!(r#"SET foo = "a value" REMOVE quux"#, combined.to_string());
}

#[test]
fn set_action_from() {
    let assign: Assign = Path::new_name(name("foo")).set(Value::from(Num::new(8)));
    let if_not_exists: IfNotExists =
        Path::new_name(name("bar")).if_not_exists().set(Value::from(Num::new(7)));
    let math: Math = Path::new_name(name("baz")).math().add(Num::new(1));
    let list_append: ListAppend = Path::new_name(name("quux")).list_append().list(list(&["d", "e", "f"]));

    let _set_actions = [
        SetAction::from(assign),
        SetAction::from(if_not_exists),
        SetAction::from(math),
        SetAction::from(list_append),
    ];
}

#[test]
fn set_action_and() {
    let assign = || -> Assign { Path::new_name(name("bar")).set(Value::from(Num::new(8))) };
    let set_action =
        || -> SetAction { Path::new_name(name("foo")).set(Value::from("a value")).into() };

    let combined = set_action().and(Update::from(assign()));
    assert_eq!(r#"SET foo = "a value", bar = 8"#, combined.to_string());

    let combined = set_action().and(Update::from(SetAction::from(assign())));
    assert_eq!(r#"SET foo = "a value", bar = 8"#, combined.to_string());

    let set = set_of(vec![
        SetAction::from(assign()),
        SetAction::from(Path::new_name(name("baz")).if_not_exists().set(Value::from(Num::new(7)))),
    ]);
    let combined = set_action().and(Update::from(set));
    assert_eq!(r#"SET foo = "a value", bar = 8, baz = if_not_exists(baz, 7)"#, combined.to_string());

    let combined = set_action().and(Update::from(Path::new_name(name("quux")).remove()));
    assert_eq!(r#"SET foo = "a value" REMOVE quux"#, combined.to_string());

    let combined =
        set_action().and(Update::from(SetRemove::from(Path::new_name(name("quux")).remove())));
    assert_eq!(r#"SET foo = "a value" REMOVE quux"#, combined.to_string());
}

#[test]
fn set_remove_display() {
    let set = || SetRemove::from(p("foo").set(Value::from("a value")));
    assert_eq!(r#"SET foo = "a value""#, set().to_string(), "Should display only SET");

    let remove = || SetRemove::from(p("bar").remove());
    assert_eq!("REMOVE bar", remove().to_string(), "Should display only REMOVE");

    let set_remove = set().and(remove());
    assert_eq!(
        r#"SET foo = "a value" REMOVE bar"#,
        set_remove.to_string(),
        "Should display SET then REMOVE"
    );

    let remove_set = remove().and(set());
    assert_eq!(
        r#"SET foo = "a value" REMOVE bar"#,
        remove_set.to_string(),
        "Should display SET then REMOVE"
    );
}

#[test]
fn test_from_set() {
    let set_remove = SetRemove::from(SetClause::new(SetAction::from(p("foo").set(Value::from("a value")))));
    assert_eq!(r#"SET foo = "a value""#, set_remove.to_string());
}

#[test]
fn test_from_set_action() {
    let set_remove = SetRemove::from(SetAction::from(p("foo").set(Value::from("a value"))));
    assert_eq!(r#"SET foo = "a value""#, set_remove.to_string());
}

#[test]
fn test_from_assign() {
    let set_remove = SetRemove::from(p("foo").set(Value::from("a value")));
    assert_eq!(r#"SET foo = "a value""#, set_remove.to_string());
}

#[test]
fn test_from_math() {
    let set_remove = SetRemove::from(p("foo").math().add(Num::new(1)));
    assert_eq!("SET foo = foo + 1", set_remove.to_string());
}

#[test]
fn test_from_list_append() {
    let set_remove = SetRemove::from(p("foo").list_append().list(list(&["a", "b", "c"])));
    assert_eq!(r#"SET foo = list_append(foo, ["a", "b", "c"])"#, set_remove.to_string());
}

#[test]
fn test_from_if_not_exists() {
    let set_remove = SetRemove::from(p("foo").if_not_exists().set(Value::from("a value")));
    assert_eq!(r#"SET foo = if_not_exists(foo, "a value")"#, set_remove.to_string());
}

#[test]
fn test_from_remove() {
    let set_remove = SetRemove::from(p("foo").remove());
    assert_eq!("REMOVE foo", set_remove.to_string());
}

#[test]
fn clauses_render_in_fixed_order() {
    let update = Update::from(p("d").delete(ValueSet::new_string_set(StringSet::new(strings(&["x"])))))
        .and(Update::from(p("c").add(Num::new(2).into())))
        .and(Update::from(p("b").remove()))
        .and(Update::from(p("a").set(Value::new_bool(true))))
        .and(Update::from(p("e").remove()));
    assert_eq!(r#"SET a = true REMOVE b, e ADD c 2 DELETE d ["x"]"#, update.to_string());
    let math = p("n").math().src(p("m")).sub(Num::new(3));
    assert_eq!("n = m - 3", math.to_string());
    let ine = p("n").if_not_exists().src(p("m")).assign(Value::new_null());
    assert_eq!("n = if_not_exists(m, NULL)", ine.to_string());
}

fn update_a() -> Update {
    Update::from(p("a").set(Value::new_bool(true))).and(Update::from(p("r").remove()))
}

fn update_b() -> Update {
    Update::from(p("b").math().add(Num::new(1))).and(Update::from(p("c").add(Num::new(2).into())))
}

fn update_c() -> Update {
    Update::from(p("s").remove())
        .and(Update::from(p("d").delete(ValueSet::new_string_set(StringSet::new(strings(&["x"]))))))
        .and(Update::from(p("e").set(Value::from("v"))))
}

#[test]
fn and_is_associative() {
    let left = update_a().and(update_b()).and(update_c());
    let right = update_a().and(update_b().and(update_c()));
    let expected = r#"SET a = true, b = b + 1, e = "v" REMOVE r, s ADD c 2 DELETE d ["x"]"#;
    assert_eq!(expected, left.to_string());
    assert_eq!(expected, right.to_string());
}

#[test]
fn and_with_no_clauses_changes_nothing() {
    let none = || Update { set: None, remove: None, add: None, delete: None };
    let expected = "SET a = true REMOVE r";
    assert_eq!(expected, update_a().and(none()).to_string());
    assert_eq!(expected, none().and(update_a()).to_string());
    assert_eq!("", none().to_string());
}

#[test]
fn and_of_different_kinds_commutes() {
    let set = || Update::from(p("a").set(Value::new_bool(true)));
    let add = || Update::from(p("c").add(Num::new(2).into()));
    assert_eq!(set().and(add()).to_string(), add().and(set()).to_string());
    assert_eq!("SET a = true ADD c 2", add().and(set()).to_string());
}

#[test]
fn add_and_delete_actions_display() {
    let add = AddAction::new(p("count"), Num::new(5).into());
    assert_eq!("count 5", add.to_string());
    let delete = DeleteAction::new(p("tags"), ValueSet::new_string_set(StringSet::new(strings(&["b", "a"]))));
    assert_eq!(r#"tags ["a", "b"]"#, delete.to_string());
}
