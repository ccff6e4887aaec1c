use shargs::resolve::{count_value, list_value, single_value, VarEnv, VarValue};

fn s(text: &str) -> String {
    text.to_string()
}

#[test]
fn single_value_prefers_what_was_found() {
    assert_eq!(single_value(Some(s("3")), &Some(s("1"))), VarValue::Val(s("3")));
    assert_eq!(single_value(Some(s("3")), &None), VarValue::Val(s("3")));
}

#[test]
fn single_value_falls_back_to_default() {
    assert_eq!(single_value(None, &Some(s("1"))), VarValue::Val(s("1")));
}

#[test]
fn single_value_without_default_is_unset() {
    assert_eq!(single_value(None, &None), VarValue::Unset);
}

#[test]
fn list_value_keeps_all_values_in_order() {
    assert_eq!(
        list_value(Some(vec![s("b"), s("a"), s("b")]), &Some(s("d"))),
        VarValue::List(vec![s("b"), s("a"), s("b")])
    );
}

#[test]
fn list_value_falls_back_to_default_alone() {
    assert_eq!(list_value(None, &Some(s("d"))), VarValue::List(vec![s("d")]));
}

#[test]
fn list_value_without_default_is_empty() {
    assert_eq!(list_value(None, &None), VarValue::List(vec![]));
}

#[test]
fn list_value_found_but_empty_stays_empty() {
    assert_eq!(list_value(Some(vec![]), &Some(s("d"))), VarValue::List(vec![]));
}

#[test]
fn count_value_zero_is_unset() {
    assert_eq!(count_value(Some(0)), VarValue::Unset);
    assert_eq!(count_value(None), VarValue::Unset);
}

#[test]
fn count_value_is_the_exact_count() {
    assert_eq!(count_value(Some(1)), VarValue::Val(s("1")));
    assert_eq!(count_value(Some(3)), VarValue::Val(s("3")));
    assert_eq!(count_value(Some(255)), VarValue::Val(s("255")));
}

#[test]
fn environment_keeps_insertion_order() {
    let mut env = VarEnv::new();
    env.insert(s("b"), VarValue::Val(s("1")));
    env.insert(s("a"), VarValue::Unset);
    env.insert(s("c"), VarValue::List(vec![s("x")]));
    let names: Vec<&str> = env.entries().iter().map(|b| b.name.as_str()).collect();
    assert_eq!(names, vec!["b", "a", "c"]);
}

#[test]
fn environment_last_write_wins_in_place() {
    let mut env = VarEnv::new();
    env.insert(s("a"), VarValue::Val(s("1")));
    env.insert(s("b"), VarValue::Val(s("2")));
    env.insert(s("a"), VarValue::Unset);
    let entries = env.entries();
    assert_eq!(entries.len(), 2);
    assert_eq!(entries[0].name, "a");
    assert_eq!(entries[0].value, VarValue::Unset);
    assert_eq!(entries[1].name, "b");
    assert_eq!(entries[1].value, VarValue::Val(s("2")));
}
