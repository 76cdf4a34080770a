use modit::bench::{parse_modules, Bench, ModulesListError};
use modit::modules::button_module;
use modit::proto::Role;

#[test]
fn a_single_module_is_a_valid_bench() {
    assert_eq!(parse_modules("a").unwrap(), vec!["a"]);
}

#[test]
fn modules_are_split_and_trimmed() {
    assert_eq!(parse_modules("a, b ,c").unwrap(), vec!["a", "b", "c"]);
}

#[test]
fn an_empty_or_duplicated_id_is_refused() {
    assert!(parse_modules("a,,b").is_err());
    assert!(parse_modules("a,a").is_err());
}

#[test]
fn a_module_advertises_the_name_its_board_was_flashed_with() {
    assert_eq!(button_module("a").advertised_name(), "modit-button-a");
}

#[test]
fn the_refusals_say_what_is_wrong() {
    let empty = parse_modules("a,,b").unwrap_err();
    assert_eq!(
        empty,
        ModulesListError::EmptyId { list: "a,,b".to_string() }
    );
    assert!(empty.message().contains("has an empty id"));
    let twice = parse_modules("a, b, a").unwrap_err();
    assert_eq!(twice, ModulesListError::Duplicate { id: "a".to_string() });
    assert!(twice.message().starts_with("\"a\" is listed twice"));
}

#[test]
fn an_empty_list_is_one_empty_id() {
    assert!(matches!(
        parse_modules(""),
        Err(ModulesListError::EmptyId { .. })
    ));
    assert!(matches!(
        parse_modules("a, "),
        Err(ModulesListError::EmptyId { .. })
    ));
}

#[test]
fn only_the_arcade_expects_a_coin_slot() {
    let arcade = Bench::for_scenario("arcade");
    assert_eq!(arcade.buttons, vec!["a", "b"]);
    assert_eq!(arcade.coin, Some("slot"));
    let whack = Bench::for_scenario("whack-a-mole");
    assert_eq!(whack.buttons, vec!["a", "b"]);
    assert_eq!(whack.coin, None);
}

#[test]
fn the_simulated_bench_puts_the_coin_slot_first() {
    let specs = Bench::for_scenario("arcade").sim_specs();
    assert_eq!(specs.len(), 3);
    assert_eq!(specs[0].0.as_str(), "slot");
    assert_eq!(specs[0].1.role, Role::Coin);
    assert_eq!(specs[1].0.as_str(), "a");
    assert_eq!(specs[1].1.role, Role::Button);
    assert_eq!(specs[2].0.as_str(), "b");
    let plain = Bench::for_scenario("speedrun").sim_specs();
    assert_eq!(plain.len(), 2);
}

#[test]
fn each_listed_board_gets_a_definition() {
    let modules = Bench::for_scenario("speedrun").button_modules();
    assert_eq!(modules.len(), 2);
    assert_eq!(modules[0], button_module("a"));
    assert_eq!(modules[1].advertised_name(), "modit-button-b");
}

#[test]
fn a_refused_list_is_quoted_as_debug_renders_it() {
    let err = parse_modules("a,\t,b").unwrap_err();
    assert!(err.message().starts_with("\"a,\\t,b\" has an empty id."));
}
