use fluxcore::data::{name_less, Table};

fn names(v: &[&str]) -> Vec<String> {
    v.iter().map(|s| s.to_string()).collect()
}

#[test]
fn columns_are_kept_in_the_order_of_their_names() {
    let table = Table::new("t".to_string(), names(&["y", "x", "b", "a", "x"]));
    assert_eq!(table.columns(), &names(&["a", "b", "x", "y"]));
    assert_eq!(table.name(), "t");
    assert_eq!(table.len(), 0);
}

#[test]
fn the_order_of_names_is_that_of_strings() {
    let mut given = names(&["b", "", "ab", "a", "B", "é", "z", "abc", "aa", "😀", "~"]);
    let table = Table::new(String::new(), given.clone());
    given.sort();
    assert_eq!(table.columns(), &given);
    assert!(name_less(&"a".to_string(), &"b".to_string()));
    assert!(name_less(&"a".to_string(), &"ab".to_string()));
    assert!(!name_less(&"ab".to_string(), &"a".to_string()));
    assert!(!name_less(&"a".to_string(), &"a".to_string()));
    assert!(name_less(&"".to_string(), &"a".to_string()));
    assert!(name_less(&"Z".to_string(), &"a".to_string()));
}

#[test]
fn a_row_goes_to_the_columns_in_their_order() {
    let mut table = Table::new("t".to_string(), names(&["y", "x"]));
    table.push(&vec![Some(1), Some(10)]);
    table.push(&vec![None, Some(20)]);
    assert_eq!(table.len(), 2);
    assert_eq!(table.get(&"x".to_string()), Some(&vec![Some(1), None]));
    assert_eq!(table.get(&"y".to_string()), Some(&vec![Some(10), Some(20)]));
    assert_eq!(table.get(&"z".to_string()), None);
    assert_eq!(table.find(&"x".to_string()), Some(0));
    assert_eq!(table.find(&"y".to_string()), Some(1));
    assert_eq!(table.find(&"".to_string()), None);
    assert_eq!(table.column(1), &vec![Some(10), Some(20)]);
}
