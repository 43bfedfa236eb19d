use codegen::machine::Register;
use codegen::registers::{create_reg_list, regInfo, regList};

fn entry(name: Register, avail: bool) -> regInfo {
    regInfo { name, avail }
}

fn machine() -> regList {
    let mut list = regList::new();
    create_reg_list(&mut list);
    list
}

fn names(list: &regList) -> Vec<Register> {
    list.regs.iter().map(|e| e.name).collect()
}

#[test]
fn new_register_table_is_empty() {
    let list = regList::new();
    assert!(list.regs.is_empty());
    assert_eq!(list.get_next_avail_reg(false), None);
    assert_eq!(list.get_next_avail_reg(true), None);
    assert!(!list.if_avail_reg(false));
    assert!(!list.is_avail_reg(Register::Rax));
}

#[test]
fn machine_registers_in_table_order() {
    let list = machine();
    assert_eq!(
        list.regs,
        vec![
            entry(Register::Rax, true),
            entry(Register::Rbx, true),
            entry(Register::Rcx, true),
            entry(Register::Rdx, true),
            entry(Register::Rsp, false),
            entry(Register::Rbp, false),
            entry(Register::Rsi, true),
            entry(Register::Rdi, true),
            entry(Register::R8, true),
            entry(Register::R9, true),
        ]
    );
}

#[test]
fn creating_the_table_twice_adds_nothing() {
    let mut list = machine();
    list.update_reg_info(Register::Rcx, false);
    let before = list.regs.clone();
    create_reg_list(&mut list);
    assert_eq!(list.regs, before);
}

#[test]
fn add_reg_appends_in_order() {
    let mut list = regList::new();
    list.add_reg(Register::R9, true);
    list.add_reg(Register::Rax, false);
    assert_eq!(list.regs, vec![entry(Register::R9, true), entry(Register::Rax, false)]);
}

#[test]
fn add_reg_keeps_a_listed_register_as_it_is() {
    let mut list = regList::new();
    list.add_reg(Register::Rbx, false);
    list.add_reg(Register::Rbx, true);
    assert_eq!(list.regs, vec![entry(Register::Rbx, false)]);
}

#[test]
fn pointer_registers_are_added_unavailable() {
    let mut list = regList::new();
    list.add_reg(Register::Rsp, true);
    list.add_reg(Register::Rbp, true);
    assert_eq!(list.regs, vec![entry(Register::Rsp, false), entry(Register::Rbp, false)]);
}

#[test]
fn claim_takes_the_first_available_register() {
    let list = machine();
    assert_eq!(list.get_next_avail_reg(false), Some(Register::Rax));
    assert_eq!(list.get_next_avail_reg(true), Some(Register::Rbx));
    assert!(list.if_avail_reg(false));
    assert!(list.if_avail_reg(true));
}

#[test]
fn claim_passes_over_reserved_and_pointer_registers() {
    let mut list = machine();
    for reg in [Register::Rax, Register::Rbx, Register::Rcx, Register::Rdx] {
        list.update_reg_info(reg, false);
    }
    assert_eq!(list.get_next_avail_reg(false), Some(Register::Rsi));
    assert_eq!(list.get_next_avail_reg(true), Some(Register::Rsi));
}

#[test]
fn claim_finds_nothing_when_only_the_accumulator_is_left() {
    let mut list = machine();
    for reg in names(&list) {
        list.update_reg_info(reg, false);
    }
    assert_eq!(list.get_next_avail_reg(false), None);
    assert!(!list.if_avail_reg(false));
    list.update_reg_info(Register::Rax, true);
    assert_eq!(list.get_next_avail_reg(false), Some(Register::Rax));
    assert_eq!(list.get_next_avail_reg(true), None);
    assert!(list.if_avail_reg(false));
    assert!(!list.if_avail_reg(true));
}

#[test]
fn reserve_and_release_toggle_one_register() {
    let mut list = machine();
    assert!(list.is_avail_reg(Register::Rdx));
    list.update_reg_info(Register::Rdx, false);
    assert!(!list.is_avail_reg(Register::Rdx));
    assert!(list.is_avail_reg(Register::Rcx));
    assert!(list.is_avail_reg(Register::Rsi));
    list.update_reg_info(Register::Rdx, true);
    assert!(list.is_avail_reg(Register::Rdx));
    assert_eq!(list.regs, machine().regs);
}

#[test]
fn pointer_registers_are_never_released() {
    let mut list = machine();
    list.update_reg_info(Register::Rsp, true);
    list.update_reg_info(Register::Rbp, true);
    assert!(!list.is_avail_reg(Register::Rsp));
    assert!(!list.is_avail_reg(Register::Rbp));
    assert_eq!(list.regs, machine().regs);
}

#[test]
fn updating_an_unlisted_register_changes_nothing() {
    let mut list = regList::new();
    list.add_reg(Register::Rax, true);
    list.update_reg_info(Register::R8, false);
    assert_eq!(list.regs, vec![entry(Register::Rax, true)]);
    assert!(!list.is_avail_reg(Register::R8));
}

#[test]
fn available_and_claimed_registers_make_up_the_universe() {
    let mut list = machine();
    let universe = names(&list);
    let steps = [
        (Register::Rax, false),
        (Register::Rsp, true),
        (Register::R9, false),
        (Register::Rax, true),
        (Register::Rdi, false),
        (Register::Rdi, false),
        (Register::Rbp, false),
    ];
    for (reg, avail) in steps {
        list.update_reg_info(reg, avail);
        assert_eq!(names(&list), universe);
        let available: Vec<Register> =
            universe.iter().copied().filter(|r| list.is_avail_reg(*r)).collect();
        let claimed: Vec<Register> =
            universe.iter().copied().filter(|r| !list.is_avail_reg(*r)).collect();
        assert_eq!(available.len() + claimed.len(), universe.len());
        assert!(available.iter().all(|r| !claimed.contains(r)));
        assert!(!available.contains(&Register::Rsp));
        assert!(!available.contains(&Register::Rbp));
    }
}

#[test]
fn free_list_drops_every_register() {
    let mut list = machine();
    list.free_list();
    assert!(list.regs.is_empty());
    assert_eq!(list.get_next_avail_reg(false), None);
}

#[test]
fn listing_of_registers() {
    let mut list = regList::new();
    assert_eq!(list.print_list(), "Empty reglist\n\n");
    list.add_reg(Register::Rax, true);
    list.add_reg(Register::Rsp, false);
    list.add_reg(Register::R8, true);
    assert_eq!(list.print_list(), "\t %rax : 1 -> \t %rsp : 0 -> \t %r8 : 1 -> \n");
}
