use incremental_code::scenes::CommandKey;
use incremental_code::terminal::{
    command_list, docs_lines, find_command, help_lines, starts_with, unknown_command_text, CommandKind, CommandLine,
    DocsView, ResetCmd, ResetState,
};
use incremental_code::unlocks::CodeStatementLevels;
use incremental_code::upgrades::{UpgradeId, Upgrades};

fn names(commands: &[CommandKind]) -> Vec<&'static str> {
    commands.iter().map(|c| c.name()).collect()
}

#[test]
fn fresh_game_offers_the_basic_commands() {
    let upgrades = Upgrades::new();
    let commands = command_list(&upgrades);
    assert_eq!(names(&commands), vec!["help", "save", "upgrades", "reset", "exit"]);
}

#[test]
fn unlocks_add_their_commands_in_help_order() {
    let mut upgrades = Upgrades::new();
    upgrades.track_level_up(UpgradeId::UnlockCode, 0);
    upgrades.track_level_up(UpgradeId::UnlockMusic, 0);
    upgrades.track_level_up(UpgradeId::UnlockReboot, 0);
    let commands = command_list(&upgrades);
    assert_eq!(
        names(&commands),
        vec!["help", "save", "reboot", "docs", "code", "compile", "run", "upgrades", "volume", "reset", "exit"]
    );
}

#[test]
fn typed_names_find_their_command() {
    let upgrades = Upgrades::new();
    let commands = command_list(&upgrades);
    assert_eq!(find_command(&commands, "save"), Some(CommandKind::Save));
    assert_eq!(find_command(&commands, "code"), None, "locked commands are unknown");
    assert_eq!(find_command(&commands, " save"), None, "names must match exactly");
    let doubled = vec![CommandKind::Help, CommandKind::Help];
    assert_eq!(find_command(&doubled, "help"), None, "a name must be unique");
}

#[test]
fn help_lists_every_command() {
    let commands = vec![CommandKind::Help, CommandKind::Exit];
    let lines = help_lines(&commands);
    assert_eq!(
        lines,
        vec![
            "List of available commands:".to_string(),
            "  help\t - Displays this help text".to_string(),
            "  exit\t - Exits the game".to_string(),
        ]
    );
}

#[test]
fn unknown_commands_point_to_help() {
    assert_eq!(
        unknown_command_text("fly"),
        "Unknown command 'fly'. For a list of available commands, try 'help'."
    );
}

#[test]
fn prefixes() {
    assert!(starts_with("compile", "comp"));
    assert!(starts_with("compile", ""));
    assert!(starts_with("code", "code"));
    assert!(!starts_with("code", "codes"));
    assert!(!starts_with("reset", "reb"));
}

#[test]
fn tab_cycles_through_completions() {
    let commands = vec![CommandKind::Reboot, CommandKind::Run, CommandKind::Reset, CommandKind::Exit];
    let mut line = CommandLine::new();
    line.input = "re".to_string();
    line.cursor = 2;
    line.key_pressed(CommandKey::Tab, &commands);
    assert_eq!(line.input, "reboot");
    assert_eq!(line.cursor, 6);
    line.key_pressed(CommandKey::Tab, &commands);
    assert_eq!(line.input, "reset");
    line.key_pressed(CommandKey::Tab, &commands);
    assert_eq!(line.input, "reboot", "the cycle starts again");
    line.key_pressed(CommandKey::Char('x'), &commands);
    assert!(line.autocomplete_cycle.is_none());
    assert_eq!(line.input, "reboot");
}

#[test]
fn tab_without_completion_or_input_keeps_the_line() {
    let commands = vec![CommandKind::Help];
    let mut line = CommandLine::new();
    line.key_pressed(CommandKey::Tab, &commands);
    assert_eq!(line.input, "");
    assert!(line.autocomplete_cycle.is_none());
    line.input = "zz".to_string();
    line.cursor = 2;
    line.key_pressed(CommandKey::Tab, &commands);
    assert_eq!(line.input, "zz");
    assert_eq!(line.cursor, 2);
    assert_eq!(line.autocomplete_cycle, Some(("zz".to_string(), 0)));
}

#[test]
fn reset_asks_before_erasing() {
    let mut cmd = ResetCmd::new();
    assert_eq!(cmd.text(), "Reset all progress? [y/N]");
    assert!(!cmd.handle_key(CommandKey::Char('q')));
    assert_eq!(cmd.state, ResetState::Asking);
    assert!(cmd.handle_key(CommandKey::Char('Y')));
    assert_eq!(cmd.state, ResetState::Confirmed);
    assert!(cmd.switches_to_reboot());
    assert!(!cmd.is_done());
    assert_eq!(cmd.text(), "Rebooting...");
    assert!(!cmd.handle_key(CommandKey::Char('y')), "a decided reset ignores keys");
}

#[test]
fn reset_can_be_cancelled() {
    for key in [CommandKey::Char('n'), CommandKey::Char('N'), CommandKey::Esc, CommandKey::Enter] {
        let mut cmd = ResetCmd::new();
        assert!(!cmd.handle_key(key));
        assert!(cmd.is_done());
        assert!(!cmd.switches_to_reboot());
        assert_eq!(cmd.text(), "Reset cancelled.");
    }
}

#[test]
fn docs_follow_the_unlocks() {
    let basic = docs_lines(false, false, false, CodeStatementLevels::NoneUnlocked, false, 5);
    assert_eq!(basic[0], "NotPython is a small programming language.");
    assert!(basic.contains(&"  -5 to 5       integer".to_string()));
    assert!(basic.contains(&"  + - %             arithmetic".to_string()));
    assert!(!basic.iter().any(|l| l == "LOOPS" || l == "FUNCTIONS" || l.starts_with("BUILT-IN")));
    assert!(!basic.iter().any(|l| l.contains("\"hello\"")));
    assert_eq!(basic.last().unwrap(), "");

    let full = docs_lines(true, true, true, CodeStatementLevels::MultiRecursion, true, 255);
    assert!(full.contains(&"  -255 to 255       integer".to_string()));
    assert!(full.contains(&"  \"hello\"         string".to_string()));
    assert!(full.contains(&"  + - * / %         arithmetic".to_string()));
    assert!(full.contains(&"  loops may be nested".to_string()));
    assert!(full.contains(&"MODIFIER: pure".to_string()));
    assert!(full.contains(&"  functions may recurse freely".to_string()));
    let sleep = full.iter().position(|l| l == "BUILT-IN: sleep").unwrap();
    let print = full.iter().position(|l| l == "BUILT-IN: print").unwrap();
    let brk = full.iter().position(|l| l == "BUILT-IN: brk").unwrap();
    assert!(sleep < print && print < brk);
    assert_eq!(full.last().unwrap(), "  Earns diamond each time a breakpoint is hit.");
}

#[test]
fn docs_of_intermediate_levels() {
    let loops = docs_lines(false, false, false, CodeStatementLevels::SimpleLoops, false, 1);
    assert!(loops.contains(&"  loops cannot be nested yet".to_string()));
    let functions = docs_lines(false, false, false, CodeStatementLevels::Functions, false, 1);
    assert!(functions.contains(&"  functions cannot call themselves yet".to_string()));
    assert!(!functions.contains(&"MODIFIER: pure".to_string()));
    assert!(functions.contains(&"  + - %             arithmetic".to_string()));
    let mult = docs_lines(false, false, false, CodeStatementLevels::Multiplication, false, 1);
    assert!(!mult.contains(&"FUNCTIONS".to_string()), "multiplication comes without functions");
    assert!(mult.contains(&"  + - * / %         arithmetic".to_string()));
    let single = docs_lines(false, false, false, CodeStatementLevels::SingleRecursion, false, 1);
    assert!(single.contains(&"  functions may call themselves once (single recursion)".to_string()));
}

#[test]
fn docs_view_scrolls_within_the_lines() {
    let upgrades = Upgrades::new();
    let mut view = DocsView::new(10, &upgrades);
    let n = view.lines.len() as u16;
    view.handle_key(CommandKey::Up, true, false);
    assert_eq!(view.scroll_y, 0);
    view.handle_key(CommandKey::Down, true, false);
    view.handle_key(CommandKey::Down, false, true);
    view.handle_key(CommandKey::Down, false, false);
    assert_eq!(view.scroll_y, 2, "a released key does not scroll");
    for _ in 0..200 {
        view.handle_key(CommandKey::Down, true, false);
    }
    assert_eq!(view.scroll_y, n);
    let shown = view.visible_lines(5);
    assert_eq!(view.scroll_y, n - 5);
    assert_eq!(shown, view.lines[(n - 5) as usize..].to_vec());
    assert_eq!(view.height(), 9);
    assert!(!view.is_done());
    view.handle_key(CommandKey::Esc, false, true);
    assert!(!view.is_done());
    view.handle_key(CommandKey::Enter, true, false);
    assert!(view.is_done());
}
