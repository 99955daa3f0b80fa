use incremental_code::parser::parse_program;
use incremental_code::pdcode::get_predefined_code;
use incremental_code::upgrades::{UpgradeId, Upgrades};

fn make_upgrades(
    statements_lvl: u8,
    line_width_lvl: u8,
    line_count_lvl: u8,
    literals_lvl: u8,
    unlock_sleep: bool,
    unlock_print: bool,
    unlock_brk: bool,
) -> Upgrades {
    let mut u = Upgrades::new();
    for _ in 0..statements_lvl {
        u.track_level_up(UpgradeId::Statements, 0);
    }
    for _ in 0..line_width_lvl {
        u.track_level_up(UpgradeId::CodeLineWidth, 0);
    }
    for _ in 0..line_count_lvl {
        u.track_level_up(UpgradeId::CodeLineCount, 0);
    }
    for _ in 0..literals_lvl {
        u.track_level_up(UpgradeId::Literals, 0);
    }
    if unlock_sleep {
        u.track_level_up(UpgradeId::UnlockSleep, 0);
    }
    if unlock_print {
        u.track_level_up(UpgradeId::UnlockPrint, 0);
    }
    if unlock_brk {
        u.track_level_up(UpgradeId::UnlockBrk, 0);
    }
    u
}

fn check_parses(upgrades: &Upgrades) {
    let code = get_predefined_code(upgrades);
    if let Err(e) = parse_program(&code) {
        panic!("Parse failed:\n{code}\n\nError at token {}", e.token_index);
    }
}

#[test]
fn stage_a_no_builtins() {
    check_parses(&make_upgrades(0, 0, 2, 0, false, false, false));
}

#[test]
fn stage_b_simple_loops() {
    check_parses(&make_upgrades(1, 1, 6, 0, false, false, false));
}

#[test]
fn stage_c_nested_loops() {
    check_parses(&make_upgrades(2, 2, 9, 0, false, false, false));
}

#[test]
fn stage_d_sleep() {
    check_parses(&make_upgrades(2, 2, 9, 3, true, false, false));
}

#[test]
fn stage_e_print() {
    check_parses(&make_upgrades(2, 2, 9, 4, true, true, false));
}

#[test]
fn stage_f_pure_functions() {
    check_parses(&make_upgrades(4, 2, 9, 4, true, true, false));
}

#[test]
fn stage_f_pure_no_sleep() {
    check_parses(&make_upgrades(4, 2, 9, 4, false, true, false));
}

#[test]
fn stage_g_multi_recursion() {
    check_parses(&make_upgrades(6, 3, 9, 4, true, true, false));
}

#[test]
fn stage_h_brk() {
    check_parses(&make_upgrades(6, 3, 9, 4, true, true, true));
}

#[test]
fn stage_i_endgame() {
    check_parses(&make_upgrades(6, 4, 10, 5, true, true, true));
}

#[test]
fn multi_recursion_sleep_only() {
    check_parses(&make_upgrades(6, 3, 9, 3, true, false, false));
}

#[test]
fn multi_recursion_no_builtins() {
    check_parses(&make_upgrades(6, 3, 9, 0, false, false, false));
}

#[test]
fn pure_helper_and_multi_recursion_levels_parse() {
    check_parses(&make_upgrades(5, 3, 9, 4, true, true, true));
    check_parses(&make_upgrades(7, 3, 9, 4, true, true, true));
    check_parses(&make_upgrades(7, 4, 10, 5, true, false, false));
}

#[test]
fn no_statements_gives_passes_and_a_sleep() {
    // width 5, 4 lines, sleep unlocked, largest literal 1: the sleep is one literal wide.
    let u = make_upgrades(0, 0, 2, 0, true, false, false);
    assert_eq!(get_predefined_code(&u), "sleep(1);\npass;\npass;\npass;");
}

#[test]
fn simple_loop_code_counts_down() {
    // width 10, 8 lines, literals up to 1: one loop around a single pass.
    let u = make_upgrades(1, 1, 6, 0, false, false, false);
    assert_eq!(
        get_predefined_code(&u),
        "i:=1*1*1;\nloop:\nif i==0:\nbreak;\nend\npass;\ni=i-1;\nend"
    );
}
