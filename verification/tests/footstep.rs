use aixker_rlt::footstep::{Footstep, Rendered};

#[test]
fn new_footstep_is_empty() {
    let footstep = Footstep::new(8);
    assert_eq!(footstep.print(), "");
}

#[test]
fn title_is_bracketed_on_its_own_line() {
    let mut footstep = Footstep::new(8);
    footstep.add_title("Reward\t");
    assert_eq!(footstep.print(), "\n[Reward\t]");
}

#[test]
fn integer_value_ignores_precision() {
    let mut footstep = Footstep::new(8);
    footstep.add_value("Batch number", 42usize);
    assert_eq!(footstep.print(), "\tBatch number: 42");
    assert_eq!(footstep.print(), format!("\t{}: {:.8}", "Batch number", 42usize));
}

#[test]
fn large_integers_show_all_digits() {
    let mut footstep = Footstep::new(3);
    footstep.add_value("Total", u64::MAX);
    assert_eq!(footstep.print(), format!("\tTotal: {}", u64::MAX));
    let mut zero = Footstep::new(3);
    zero.add_value("Zero", 0u32);
    assert_eq!(zero.print(), "\tZero: 0");
}

#[test]
fn bool_value_is_cut_to_precision() {
    let mut footstep = Footstep::new(8);
    footstep.add_value("Success ", true);
    assert_eq!(footstep.print(), "\tSuccess : true");
    let mut short = Footstep::new(2);
    short.add_value("Stuck ", false);
    assert_eq!(short.print(), "\tStuck : fa");
    assert_eq!(short.print(), format!("\t{}: {:.2}", "Stuck ", false));
}

#[test]
fn value_with_own_precision() {
    let mut footstep = Footstep::new(8);
    footstep.add_value_with_precision("Diverging ", true, 3);
    footstep.add_value_with_precision("Count", 7u32, 0);
    assert_eq!(footstep.print(), "\tDiverging : tru\tCount: 7");
}

#[test]
fn title_with_value_lists_debug_forms() {
    let mut footstep = Footstep::new(8);
    footstep.add_title_with_value("Totals\t", &[1u32, 20, 300]);
    assert_eq!(footstep.print(), "\n[Totals\t]\t[1, 20, 300]");
    assert_eq!(footstep.print(), format!("\n[{}]\t{:?}", "Totals\t", [1u32, 20, 300]));
}

#[test]
fn title_with_empty_and_single_value() {
    let mut footstep = Footstep::new(8);
    let none: [bool; 0] = [];
    footstep.add_title_with_value("Flags", &none);
    footstep.add_title_with_value("One", &[false]);
    assert_eq!(footstep.print(), "\n[Flags]\t[]\n[One]\t[false]");
}

#[test]
fn values_are_written_in_order() {
    let mut footstep = Footstep::new(8);
    footstep.add_values(vec![("High pressure", 3u64), ("Normal pressure", 0u64)]);
    assert_eq!(footstep.print(), "\tHigh pressure: 3\tNormal pressure: 0");
}

#[test]
fn text_only_grows() {
    let mut footstep = Footstep::new(8);
    footstep.add_title("Result\t");
    let before = footstep.print();
    footstep.add_value("Action taken ", 2usize);
    let after = footstep.print();
    assert!(after.starts_with(&before));
    assert_eq!(after, "\n[Result\t]\tAction taken : 2");
}

#[test]
fn rendered_text_is_shown_as_given() {
    let mut footstep = Footstep::new(2);
    footstep.add_value("Loss", Rendered::new(String::from("0.12345678")));
    footstep.add_title_with_value("Probs\t", &[Rendered::new(String::from("0.5"))]);
    assert_eq!(footstep.print(), "\tLoss: 0.12345678\n[Probs\t]\t[0.5]");
    assert_eq!(footstep.precision(), 2);
}

#[test]
fn add_values_matches_add_value_one_by_one() {
    let mut together = Footstep::new(8);
    together.add_values(vec![("a", true), ("b", false)]);
    let mut apart = Footstep::new(8);
    apart.add_value("a", true);
    apart.add_value("b", false);
    assert_eq!(together.print(), apart.print());
    let mut empty = Footstep::new(8);
    empty.add_values(Vec::<(&str, u32)>::new());
    assert_eq!(empty.print(), "");
}
