use incremental_code::ast::NotPythonStmt;
use incremental_code::compilation::{compile_source, finish_compilation, WipCompilingProgram};
use incremental_code::compile::{compile_with_meta, CompilingMetadata};
use incremental_code::hashed_string::{add_mod, mul_mod, pow_mod, HashedString, HASH_BASE, HASH_MODULUS};
use incremental_code::parser::parse_program;
use incremental_code::scenes::{
    boot_chars_shown, boot_lines, boot_text_finished, build_tree_items, typed_boot_lines, group_is_finished, groups_are_unlocked, on_upgrades_commit, open_all_upgrade_nodes,
    total_boot_chars, AutoSaver, CodeEditorScene, CommandKey, ConfirmResult, DialogOutcome, RebootCmd, RebootState,
    StoreNative, StoreWeb, TickerMut, VictoryScene, VolumeCmd,
};
use incremental_code::unlocks::{verify_stmt, verify_unlocks, CodeStatementLevels, UnlockError, UnlockLimits};
use incremental_code::upgrades::{UpgradeId, Upgrades};
use incremental_code::values::{signed_decimal_text, decimal_text};
use std::sync::atomic::AtomicBool;
use std::sync::Arc;

fn fresh_flag() -> Arc<AtomicBool> {
    Arc::new(AtomicBool::new(false))
}


fn leveled(ups: &[(UpgradeId, usize)]) -> Upgrades {
    let mut u = Upgrades::new();
    for (id, n) in ups {
        for _ in 0..*n {
            u.track_level_up(*id, 0);
        }
    }
    u
}

fn limits(line_width: u8, line_count: u8, strings_allowed: bool, max_int: u8, statements: CodeStatementLevels) -> UnlockLimits {
    UnlockLimits { line_width, line_count, strings_allowed, max_int, statements }
}

fn check(src: &str, l: &UnlockLimits) -> Result<(), UnlockError> {
    let program = parse_program(src).unwrap();
    verify_unlocks(src, &program, l)
}

fn open_limits(statements: CodeStatementLevels) -> UnlockLimits {
    limits(80, 40, true, 255, statements)
}

#[test]
fn unlock_line_limits() {
    let l = limits(10, 2, true, 255, CodeStatementLevels::MultiRecursion);
    let e = check("pass;\npass;\npass;\n", &l).unwrap_err();
    assert_eq!(e, UnlockError::TooManyLines { used: 3, allowed: 2 });
    assert_eq!(e.to_string(), "Too many lines: 3 used, 2 allowed");
    let e = check("pass;\nx := 1234567;\n", &l).unwrap_err();
    assert_eq!(e, UnlockError::LineTooLong { line: 2, chars: 13, max: 10 });
    assert_eq!(e.to_string(), "Line 2 is too long: 13 chars, max 10");
    assert_eq!(check("pass;\npass;\n", &l), Ok(()));
}

#[test]
fn unlock_literals() {
    let l = limits(80, 40, false, 10, CodeStatementLevels::MultiRecursion);
    let e = check("x := -11;\n", &l).unwrap_err();
    assert_eq!(e.to_string(), "Integer literal 11 exceeds max allowed value of 10");
    assert_eq!(e, UnlockError::IntegerTooLarge { value: 11, max: 10 });
    assert_eq!(check("x := -10;\n", &l), Ok(()));
    let e = check("x := [1, {2: \"s\"}];\n", &l).unwrap_err();
    assert_eq!(e, UnlockError::StringsLocked);
    assert_eq!(e.to_string(), "String literals are not unlocked yet");
}

#[test]
fn unlock_statements() {
    let none = open_limits(CodeStatementLevels::NoneUnlocked);
    assert_eq!(check("break;\n", &none).unwrap_err().to_string(), "break/continue requires the loops upgrade");
    assert_eq!(check("loop:\npass;\nend\n", &none).unwrap_err().to_string(), "Loops are not unlocked yet");
    let simple = open_limits(CodeStatementLevels::SimpleLoops);
    assert_eq!(check("loop:\nbreak;\nend\n", &simple), Ok(()));
    assert_eq!(
        check("loop:\nloop:\nbreak;\nend\nend\n", &simple).unwrap_err().to_string(),
        "Nested loops are not unlocked yet"
    );
    let nested = open_limits(CodeStatementLevels::NestedLoops);
    assert_eq!(check("loop:\nloop:\nbreak;\nend\nend\n", &nested), Ok(()));
    assert_eq!(check("return;\n", &nested).unwrap_err().to_string(), "return requires the functions upgrade");
    assert_eq!(
        check("def f():\npass;\nend\n", &nested).unwrap_err().to_string(),
        "Function definitions are not unlocked yet"
    );
    let functions = open_limits(CodeStatementLevels::Functions);
    assert_eq!(
        check("def pure f():\npass;\nend\n", &functions).unwrap_err().to_string(),
        "Pure functions are not unlocked yet"
    );
    assert_eq!(
        check("def f():\nf();\nend\n", &functions).unwrap_err().to_string(),
        "Recursion is not unlocked yet (function 'f' calls itself)"
    );
    let single = open_limits(CodeStatementLevels::SingleRecursion);
    assert_eq!(check("def f():\nf();\nend\n", &single), Ok(()));
    let e = check("def f():\nf();\nf();\nend\n", &single).unwrap_err();
    assert_eq!(e, UnlockError::TooManyRecursiveCalls { name: "f".to_string(), calls: 2, max: 1 });
    assert_eq!(e.to_string(), "Function 'f' has 2 recursive calls, max allowed is 1");
    let multi = open_limits(CodeStatementLevels::MultiRecursion);
    assert_eq!(check("def f():\nf();\nf();\nend\n", &multi), Ok(()));
}

#[test]
fn fresh_upgrades_refuse_most_code() {
    let u = Upgrades::new();
    assert_eq!(compile_source("x := 1;", &u, fresh_flag()).unwrap_err(), "Line 1 is too long: 7 chars, max 5");
    assert_eq!(compile_source("x:=2;", &u, fresh_flag()).unwrap_err(), "Integer literal 2 exceeds max allowed value of 1");
    assert_eq!(compile_source("pass;\npass;", &u, fresh_flag()).unwrap_err(), "Too many lines: 2 used, 1 allowed");
    assert!(compile_source("x := ;", &u, fresh_flag()).unwrap_err().starts_with("Syntax error at token "));
    let run = compile_source("x:=1;", &u, fresh_flag()).unwrap().unwrap();
    assert_eq!(run.instruction_counts, vec![vec![1]]);
}

#[test]
fn print_records_the_longest_text() {
    let u = leveled(&[
        (UpgradeId::CodeLineWidth, 3),
        (UpgradeId::CodeLineCount, 2),
        (UpgradeId::Literals, 4),
        (UpgradeId::UnlockPrint, 1),
    ]);
    let run = compile_source("print(\"hello\");\nprint(\"hi\");", &u, fresh_flag()).unwrap().unwrap();
    assert_eq!(run.print_len, Some(5));
}

#[test]
fn locked_print_is_not_found() {
    let u = leveled(&[(UpgradeId::CodeLineWidth, 3), (UpgradeId::Literals, 4)]);
    let (msg, _) = compile_source("print(\"hi\");", &u, fresh_flag()).unwrap().unwrap_err();
    assert!(msg.contains("not found"), "{msg}");
}

#[test]
fn sleep_and_brk_begin_new_parts() {
    let u = leveled(&[
        (UpgradeId::CodeLineWidth, 3),
        (UpgradeId::CodeLineCount, 2),
        (UpgradeId::UnlockSleep, 1),
        (UpgradeId::UnlockBrk, 1),
    ]);
    let run = compile_source("sleep(1);\nbrk();", &u, fresh_flag()).unwrap().unwrap();
    assert_eq!(run.sleep_calls, vec![1]);
    assert_eq!(run.instruction_counts.len(), 2);
}

#[test]
fn endless_loop_hits_the_instruction_limit() {
    let u = leveled(&[(UpgradeId::CodeLineWidth, 3), (UpgradeId::CodeLineCount, 2), (UpgradeId::Statements, 1)]);
    let (msg, counts) = compile_source("loop:\npass;\nend", &u, fresh_flag()).unwrap().unwrap_err();
    assert_eq!(msg, "Reached instruction limit. Stopping execution to prevent overheating.");
    assert_eq!(counts.len(), 1);
}

#[test]
fn cancelled_compilation_reports_cancel() {
    let u = leveled(&[(UpgradeId::CodeLineWidth, 3), (UpgradeId::CodeLineCount, 2), (UpgradeId::Statements, 1)]);
    let flag = Arc::new(AtomicBool::new(true));
    assert_eq!(compile_source("loop:\npass;\nend", &u, flag).unwrap_err(), "Compilation was cancelled");
    let flag = Arc::new(AtomicBool::new(true));
    assert_eq!(compile_source("x:=1;", &u, flag).unwrap_err(), "Compilation was cancelled");
}

#[test]
fn cancel_seen_during_a_run_stops_it() {
    let program = parse_program("loop:\npass;\nend\n").unwrap();
    let mut meta = WipCompilingProgram::new(Arc::new(AtomicBool::new(true)), 1_000_000_000_000, false, false, false);
    let err = compile_with_meta(&program, &mut meta).unwrap_err();
    assert_eq!(err.to_string(), "Cancelling logic program");
    assert!(meta.cancelled);
    assert_eq!(meta.left_to_instruction_limit, 1_000_000_000_000);
    let finished = finish_compilation(meta, Err(err), false);
    assert_eq!(finished.unwrap_err().to_string(), "Compilation was cancelled");
}

#[test]
fn a_stopped_run_stays_stopped() {
    let program = parse_program("loop:\nbreak;\nend\n").unwrap();
    let mut meta = WipCompilingProgram::new(fresh_flag(), 1_000, false, false, false);
    meta.cancelled = true;
    let err = compile_with_meta(&program, &mut meta).unwrap_err();
    assert_eq!(err.to_string(), "Cancelling logic program");
    assert!(meta.cancelled);
    assert_eq!(meta.left_to_instruction_limit, 1_000);
}

#[test]
fn finishing_a_compilation() {
    let meta = WipCompilingProgram::new(fresh_flag(), 10, false, false, false);
    assert_eq!(finish_compilation(meta, Ok(()), true).unwrap_err().to_string(), "Compilation was cancelled");
    let meta = WipCompilingProgram::new(fresh_flag(), 10, false, false, false);
    let run = finish_compilation(meta, Ok(()), false).unwrap().unwrap();
    assert_eq!(run.instruction_counts, vec![vec![0]]);
    let program = parse_program("pass;\npass;\npass;\n").unwrap();
    let mut meta = WipCompilingProgram::new(fresh_flag(), 2, false, false, false);
    let err = compile_with_meta(&program, &mut meta);
    let (msg, counts) = finish_compilation(meta, err, false).unwrap().unwrap_err();
    assert_eq!(msg, "Reached instruction limit. Stopping execution to prevent overheating.");
    assert_eq!(counts, vec![vec![1]]);
}

#[test]
fn instruction_limit_of_a_run() {
    let program = parse_program("pass;\npass;\npass;\n").unwrap();
    let mut meta = WipCompilingProgram::new(fresh_flag(), 2, false, false, false);
    let err = compile_with_meta(&program, &mut meta).unwrap_err();
    assert_eq!(err.to_string(), "Reached instruction limit. Stopping execution to prevent overheating.");
    assert_eq!(meta.left_to_instruction_limit, 0);
    let mut meta = WipCompilingProgram::new(fresh_flag(), 4, false, false, false);
    assert!(compile_with_meta(&program, &mut meta).is_ok());
    assert!(meta.is_predefined("print") == false);
    assert!(matches!(program.statement, NotPythonStmt::Block(_)));
}

#[test]
fn hashing_arithmetic() {
    assert_eq!(HashedString::compute_hash("a"), 97);
    assert_eq!(HashedString::compute_hash("ab"), 97 * 1_000_003 + 98);
    assert_eq!(HashedString::new("héllo").len(), 6);
    assert_eq!(HashedString::new("ab").concat(HashedString::new("cde")).hash(), 5);
    assert_eq!(HashedString::new("héllo!"), HashedString::new("hé").concat(HashedString::new("llo!")));
    assert_eq!(pow_mod(2, 10), 1024);
    assert_eq!(pow_mod(7, 0), 1);
    assert_eq!(pow_mod(2, 61), 1, "2^61 is one more than the modulus");
    assert_eq!(mul_mod(HASH_MODULUS - 1, 2), HASH_MODULUS - 2);
    assert_eq!(add_mod(HASH_MODULUS - 1, 1), 0);
    assert_eq!(add_mod(3, 4), 7);
}

#[test]
fn hash_of_joined_strings() {
    for (a, b) in [("abc", "de"), ("", "xyz"), ("héllo", " wörld"), ("q", "")] {
        let joined = format!("{a}{b}");
        let expected = add_mod(
            mul_mod(HashedString::compute_hash(a), pow_mod(HASH_BASE, b.len() as u64)),
            HashedString::compute_hash(b),
        );
        assert_eq!(HashedString::compute_hash(&joined), expected, "{a:?} + {b:?}");
    }
    assert_eq!(HashedString::compute_hash(""), 0);
}

#[test]
fn decimal_texts() {
    assert_eq!(decimal_text(0), "0");
    assert_eq!(decimal_text(18_446_744_073_709_551_615), "18446744073709551615");
    assert_eq!(signed_decimal_text(-42), "-42");
    assert_eq!(signed_decimal_text(i64::MIN), "-9223372036854775808");
}

#[test]
fn volume_command() {
    let mut v = VolumeCmd::new(50);
    assert_eq!(v.bar_text(), format!("Volume: [{}{}] 50%", "█".repeat(10), "░".repeat(10)));
    assert!(v.handle_key(CommandKey::Right));
    assert_eq!(v.current, 51);
    assert!(v.handle_key(CommandKey::Esc));
    assert_eq!(v.current, 50);
    assert!(v.cancelled && v.done);
    assert!(!v.handle_key(CommandKey::Left), "a finished command ignores keys");
    assert_eq!(v.text(), "Volume restored to 50%.");
    let mut full = VolumeCmd::new(100);
    full.handle_key(CommandKey::Right);
    assert_eq!(full.current, 100);
    assert_eq!(full.bar_text(), format!("Volume: [{}] 100%", "█".repeat(20)));
    let mut zero = VolumeCmd::new(0);
    zero.handle_key(CommandKey::Left);
    assert_eq!(zero.current, 0);
    assert!(!zero.handle_key(CommandKey::Enter));
    assert!(zero.done && !zero.cancelled);
    assert_eq!(zero.text(), "Volume set to 0%.");
    assert_eq!(VolumeCmd::new(7).text(), VolumeCmd::new(7).bar_text());
}

#[test]
fn reboot_command() {
    let mut r = RebootCmd::new();
    assert_eq!(
        r.current_text("2 ⚪"),
        "This will reset all upgrades but give additional resources.\nWith your current resources, you will restart with 2 ⚪\nReboot?  [y/N]"
    );
    assert!(!r.handle_key(CommandKey::Tab));
    assert!(r.handle_key(CommandKey::Char('y')));
    assert_eq!(r.state, RebootState::Confirmed);
    assert_eq!(r.current_text("x"), "Rebooting...");
    assert!(r.switches_to_reboot() && !r.is_done());
    let mut r = RebootCmd::new();
    assert!(!r.handle_key(CommandKey::Esc));
    assert_eq!(r.current_text("x"), "Reboot cancelled.");
    assert!(r.is_done() && !r.switches_to_reboot());
}

#[test]
fn upgrade_tree_tiers() {
    let fresh = Upgrades::new();
    assert_eq!(groups_are_unlocked(&fresh), [true, false, false, false, false, false, false]);
    assert_eq!(build_tree_items(&fresh), vec![(0, "Level 0 upgrades".to_string())]);
    assert_eq!(open_all_upgrade_nodes(&fresh), vec![(0, 0), (0, 1), (0, 2), (0, 3)]);
    assert!(!group_is_finished(&fresh, 0));
    let done = leveled(&[
        (UpgradeId::UnlockCode, 1),
        (UpgradeId::UnlockHud, 1),
        (UpgradeId::UnlockMusic, 1),
        (UpgradeId::UnlockLevel1, 1),
    ]);
    assert!(group_is_finished(&done, 0));
    assert_eq!(
        build_tree_items(&done),
        vec![(0, "Level 0 upgrades ✅".to_string()), (1, "Level 1 upgrades".to_string())]
    );
    let nodes = open_all_upgrade_nodes(&done);
    assert_eq!(nodes[..4], [(0, 0), (0, 1), (0, 2), (0, 3)]);
    assert!(nodes[4..].iter().all(|(g, _)| *g == 1));
    assert!(done.track_purchasable(UpgradeId::CompileTime, 0));
    assert!(!done.track_purchasable(UpgradeId::UnlockCode, 0));
}

#[test]
fn committing_upgrades() {
    let u = leveled(&[(UpgradeId::UnlockMusic, 1), (UpgradeId::AutoRun, 2)]);
    let a = on_upgrades_commit(&u, true);
    assert!(a.music_on);
    assert!(a.clear_failed_run);
    assert_eq!(a.auto_run_millis, Some(6_000));
    assert!(!a.won);
    let a = on_upgrades_commit(&Upgrades::new(), false);
    assert!(!a.music_on && !a.clear_failed_run && a.auto_run_millis.is_none());
}

#[test]
fn boot_text_length() {
    let expected: usize = boot_lines().iter().map(|l| l.len() + 1).sum();
    assert_eq!(total_boot_chars(), expected);
    assert_eq!(boot_lines()[0], "INCREMENTAL-CODE BIOS v1.0");
}

#[test]
fn auto_saver_saves_each_period() {
    let mut s = AutoSaver::new();
    assert!(!s.tick(10_000));
    s.start(1_000);
    assert!(!s.tick(600));
    assert!(s.tick(400));
    assert_eq!(s.since_last_save, 0);
    s.stop();
    assert!(!s.tick(5_000));
}

#[test]
fn storage_names() {
    assert_eq!(StoreWeb {}.storage_key("game_state"), "save_game_state");
    assert_eq!(StoreNative { directory: "/tmp".to_string() }.file_name("settings"), "settings.json");
}

#[test]
fn editor_and_victory() {
    let mut e = CodeEditorScene::new("x := 1;".to_string());
    assert!(e.exit_requested(&"x := 1;".to_string()));
    assert!(!e.exit_requested(&"x := 2;".to_string()));
    assert!(e.confirming_exit);
    assert_eq!(e.dialog_answered(ConfirmResult::Cancel), DialogOutcome::Stay);
    assert!(!e.confirming_exit);
    assert_eq!(e.dialog_answered(ConfirmResult::Yes), DialogOutcome::SaveAndLeave);
    assert_eq!(e.dialog_answered(ConfirmResult::No), DialogOutcome::Leave);
    let lines = VictoryScene::message_lines();
    assert_eq!(lines[0], "Congratulations!");
    assert_eq!(lines.len(), 5);
}

#[test]
fn boot_text_is_typed_line_by_line() {
    assert!(typed_boot_lines(0).is_empty());
    assert_eq!(typed_boot_lines(5), vec!["INCRE".to_string()]);
    assert_eq!(typed_boot_lines(27), vec!["INCREMENTAL-CODE BIOS v1.0".to_string()]);
    assert_eq!(typed_boot_lines(28), vec!["INCREMENTAL-CODE BIOS v1.0".to_string(), "(".to_string()]);
    let all = typed_boot_lines(total_boot_chars());
    assert_eq!(all.len(), boot_lines().len());
    assert_eq!(all.last().unwrap(), "> System ready.");
    assert_eq!(boot_chars_shown(2_000_000_000, 30), 60);
    assert_eq!(boot_chars_shown(999_999_999, 1), 0);
    let total = total_boot_chars() as u64;
    let typing = total * 1_000_000_000 / 40;
    assert!(!boot_text_finished(typing + 1_499_999_999, 40));
    assert!(boot_text_finished(typing + 1_500_000_000, 40));
}

#[test]
fn statement_check_of_loops() {
    let nested = parse_program("loop:\nloop:\nbreak;\nend\nbreak;\nend\n").unwrap();
    let single = parse_program("loop:\nbreak;\nend\n").unwrap();
    assert_eq!(
        verify_stmt(&nested.statement, false, 10, CodeStatementLevels::SimpleLoops, 0),
        Err(UnlockError::NestedLoopsLocked)
    );
    assert_eq!(verify_stmt(&single.statement, false, 10, CodeStatementLevels::SimpleLoops, 0), Ok(()));
    assert_eq!(verify_stmt(&nested.statement, false, 10, CodeStatementLevels::NestedLoops, 0), Ok(()));
    assert_eq!(
        verify_stmt(&single.statement, false, 10, CodeStatementLevels::NoneUnlocked, 0),
        Err(UnlockError::LoopsLocked)
    );
}
