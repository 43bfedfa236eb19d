use codegen::machine::{Location, Register};
use codegen::storage::{varStList, varStoreInfo, INVAL};

fn name(text: &str) -> String {
    text.to_string()
}

fn summary(list: &varStList) -> Vec<(String, bool, i64, Location)> {
    list.entries
        .iter()
        .map(|e: &varStoreInfo| (e.name.clone(), e.is_const, e.value, e.location))
        .collect()
}

#[test]
fn sentinel_value() {
    assert_eq!(INVAL, -999);
}

#[test]
fn new_storage_table_is_empty() {
    let list = varStList::new();
    assert!(list.entries.is_empty());
    assert_eq!(list.lookup_var_info(name("x"), INVAL), None);
    assert_eq!(list.lookup_var_info(name(""), 0), None);
}

#[test]
fn bindings_are_put_in_front() {
    let mut list = varStList::new();
    list.add_var_info(name("a"), Location::Frame(-8), INVAL, false);
    list.add_var_info(name("b"), Location::Register(Register::Rcx), INVAL, false);
    list.add_var_info(name(""), Location::Frame(-16), 7, true);
    assert_eq!(
        summary(&list),
        vec![
            (name(""), true, 7, Location::Frame(-16)),
            (name("b"), false, INVAL, Location::Register(Register::Rcx)),
            (name("a"), false, INVAL, Location::Frame(-8)),
        ]
    );
}

#[test]
fn variables_are_found_by_name() {
    let mut list = varStList::new();
    list.add_var_info(name("a"), Location::Frame(-8), INVAL, false);
    list.add_var_info(name("b"), Location::Frame(-16), INVAL, false);
    assert_eq!(list.lookup_var_info(name("a"), INVAL), Some(Location::Frame(-8)));
    assert_eq!(list.lookup_var_info(name("b"), INVAL), Some(Location::Frame(-16)));
    assert_eq!(list.lookup_var_info(name("c"), INVAL), None);
    assert_eq!(list.lookup_var_info(name("a"), 12345), Some(Location::Frame(-8)));
}

#[test]
fn constants_are_found_by_value() {
    let mut list = varStList::new();
    list.add_var_info(name(""), Location::Frame(-8), 2, true);
    list.add_var_info(name(""), Location::Frame(-16), 3, true);
    assert_eq!(list.lookup_var_info(name(""), 2), Some(Location::Frame(-8)));
    assert_eq!(list.lookup_var_info(name("whatever"), 3), Some(Location::Frame(-16)));
    assert_eq!(list.lookup_var_info(name(""), 4), None);
    assert_eq!(list.lookup_var_info(name(""), INVAL), None);
}

#[test]
fn most_recent_binding_shadows_earlier_ones() {
    let mut list = varStList::new();
    list.add_var_info(name("x"), Location::Frame(-8), INVAL, false);
    list.add_var_info(name("x"), Location::Frame(-24), INVAL, false);
    assert_eq!(list.lookup_var_info(name("x"), INVAL), Some(Location::Frame(-24)));
    assert_eq!(list.entries.len(), 2);
}

#[test]
fn a_constant_equal_to_the_sentinel_answers_a_lookup_by_name() {
    let mut list = varStList::new();
    list.add_var_info(name("x"), Location::Frame(-8), INVAL, false);
    list.add_var_info(name(""), Location::Frame(-16), INVAL, true);
    assert_eq!(list.lookup_var_info(name("x"), INVAL), Some(Location::Frame(-16)));
    assert_eq!(list.lookup_var_info(name("x"), 0), Some(Location::Frame(-8)));
}

#[test]
fn update_binds_a_name_that_is_not_found() {
    let mut list = varStList::new();
    list.add_var_info(name("a"), Location::Frame(-8), INVAL, false);
    list.update_var_info(name("b"), Location::Frame(-16), INVAL, false);
    assert_eq!(
        summary(&list),
        vec![
            (name("b"), false, INVAL, Location::Frame(-16)),
            (name("a"), false, INVAL, Location::Frame(-8)),
        ]
    );
}

#[test]
fn update_rewrites_a_found_name_in_place() {
    let mut list = varStList::new();
    list.add_var_info(name("a"), Location::Frame(-8), INVAL, false);
    list.add_var_info(name("b"), Location::Frame(-16), INVAL, false);
    list.add_var_info(name("c"), Location::Frame(-24), INVAL, false);
    list.update_var_info(name("b"), Location::Register(Register::Rbx), 5, false);
    assert_eq!(
        summary(&list),
        vec![
            (name("c"), false, INVAL, Location::Frame(-24)),
            (name("b"), false, 5, Location::Register(Register::Rbx)),
            (name("a"), false, INVAL, Location::Frame(-8)),
        ]
    );
    assert_eq!(list.lookup_var_info(name("b"), INVAL), Some(Location::Register(Register::Rbx)));
}

#[test]
fn update_rewrites_only_the_first_binding_of_a_name() {
    let mut list = varStList::new();
    list.add_var_info(name("x"), Location::Frame(-8), INVAL, false);
    list.add_var_info(name("x"), Location::Frame(-16), INVAL, false);
    list.update_var_info(name("x"), Location::Frame(-32), INVAL, false);
    assert_eq!(
        summary(&list),
        vec![
            (name("x"), false, INVAL, Location::Frame(-32)),
            (name("x"), false, INVAL, Location::Frame(-8)),
        ]
    );
}

#[test]
fn update_can_turn_a_variable_into_a_constant() {
    let mut list = varStList::new();
    list.add_var_info(name("k"), Location::Frame(-8), INVAL, false);
    list.update_var_info(name("k"), Location::Frame(-8), 9, true);
    assert_eq!(summary(&list), vec![(name("k"), true, 9, Location::Frame(-8))]);
    assert_eq!(list.lookup_var_info(name("k"), INVAL), None);
    assert_eq!(list.lookup_var_info(name("other"), 9), Some(Location::Frame(-8)));
}

#[test]
fn update_found_through_a_constant_without_the_name_changes_nothing() {
    let mut list = varStList::new();
    list.add_var_info(name(""), Location::Frame(-8), 4, true);
    list.update_var_info(name("y"), Location::Frame(-16), 4, false);
    assert_eq!(summary(&list), vec![(name(""), true, 4, Location::Frame(-8))]);
}

#[test]
fn free_list_drops_every_binding() {
    let mut list = varStList::new();
    list.add_var_info(name("a"), Location::Frame(-8), INVAL, false);
    list.add_var_info(name(""), Location::Frame(-16), 1, true);
    list.free_list();
    assert!(list.entries.is_empty());
    assert_eq!(list.lookup_var_info(name("a"), INVAL), None);
}

#[test]
fn listing_of_bindings() {
    let mut list = varStList::new();
    assert_eq!(list.print_list(), "Empty varlist\n\n");
    list.add_var_info(name("a"), Location::Register(Register::Rdi), INVAL, false);
    list.add_var_info(name(""), Location::Frame(-8), -42, true);
    list.add_var_info(name("total"), Location::Frame(16), INVAL, false);
    assert_eq!(
        list.print_list(),
        "\t total : 16(%rbp) -> \t -42 : -8(%rbp) -> \t a : %rdi -> \n"
    );
}
