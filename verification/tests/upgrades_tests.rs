use incremental_code::unlocks::CodeStatementLevels;
use incremental_code::upgrades::{UpgradeId, Upgrades};

#[test]
fn default_keep_level_only_preserves_group_zero_and_level_unlocks() {
    let mut upgrades = Upgrades::new();
    upgrades.track_level_up(UpgradeId::UnlockHud, 0); // group 0
    upgrades.track_level_up(UpgradeId::CompileTime, 0); // group 1
    upgrades.track_level_up(UpgradeId::CompileTime, 0);
    upgrades.track_level_up(UpgradeId::CompileTime, 0);
    upgrades.track_level_up(UpgradeId::UnlockLevel2, 0); // group 1, but always kept

    let upgrades = upgrades.prestige_upgrades();

    assert!(upgrades.is_unlocked(UpgradeId::UnlockHud), "group 0 upgrade kept");
    assert_eq!(
        upgrades.compile_time_millis(),
        10_000,
        "group 1 upgrade reset to its default (level 0) value"
    );
    assert!(upgrades.is_unlocked(UpgradeId::UnlockLevel2), "unlock_levelN is always preserved");
}

#[test]
fn keep_prestige_upgrades_raises_the_preserved_group_threshold() {
    let mut upgrades = Upgrades::new();
    upgrades.track_level_up(UpgradeId::KeepPrestigeUpgrades, 0);
    upgrades.track_level_up(UpgradeId::KeepPrestigeUpgrades, 0); // level 2, "keep L2"
    upgrades.track_level_up(UpgradeId::BronzePerInstruction, 0); // group 2
    upgrades.track_level_up(UpgradeId::BronzePerInstruction, 0);
    upgrades.track_level_up(UpgradeId::AutoCompile, 0); // group 3

    let upgrades = upgrades.prestige_upgrades();

    assert_eq!(
        upgrades.keep_prestige_upgrades(),
        2,
        "keep_prestige_upgrades (group 2) preserves itself at group threshold 2"
    );
    assert_eq!(upgrades.track_get_level(UpgradeId::BronzePerInstruction, 0), 2, "group 2 upgrade kept");
    assert!(!upgrades.is_unlocked(UpgradeId::AutoCompile), "group 3 upgrade reset, above the threshold");
}

#[test]
fn keep_prestige_upgrades_resets_itself_when_threshold_excludes_its_own_group() {
    let mut upgrades = Upgrades::new();
    upgrades.track_level_up(UpgradeId::KeepPrestigeUpgrades, 0); // level 1, "keep L1"

    let upgrades = upgrades.prestige_upgrades();

    assert_eq!(upgrades.keep_prestige_upgrades(), 0);
}

#[test]
fn kept_multi_track_upgrade_preserves_each_track_independently() {
    let mut upgrades = Upgrades::new();
    upgrades.track_level_up(UpgradeId::KeepPrestigeUpgrades, 0); // level 1, "keep L1"
    upgrades.track_level_up(UpgradeId::InstructionExecutionSpeed, 0); // group 1
    upgrades.track_level_up(UpgradeId::InstructionExecutionSpeed, 0);
    upgrades.track_level_up(UpgradeId::InstructionExecutionSpeed, 2);

    let upgrades = upgrades.prestige_upgrades();

    assert_eq!(upgrades.track_get_level(UpgradeId::InstructionExecutionSpeed, 0), 2);
    assert_eq!(upgrades.track_get_level(UpgradeId::InstructionExecutionSpeed, 2), 1);
    assert_eq!(upgrades.track_get_level(UpgradeId::InstructionExecutionSpeed, 1), 0);
}

#[test]
fn level_up_stops_at_the_highest_level() {
    let mut upgrades = Upgrades::new();
    for _ in 0..10 {
        upgrades.track_level_up(UpgradeId::CodeLineWidth, 0);
    }
    assert_eq!(upgrades.total_level(UpgradeId::CodeLineWidth), 5);
    assert_eq!(upgrades.code_line_width(), 80);
}

#[test]
fn level_down_stops_at_zero() {
    let mut upgrades = Upgrades::new();
    upgrades.track_level_up(UpgradeId::CodeLineCount, 0);
    upgrades.track_level_down(UpgradeId::CodeLineCount, 0);
    upgrades.track_level_down(UpgradeId::CodeLineCount, 0);
    assert_eq!(upgrades.total_level(UpgradeId::CodeLineCount), 0);
    assert_eq!(upgrades.code_line_count(), 1);
}

#[test]
fn tracks_share_the_level_budget() {
    let mut upgrades = Upgrades::new();
    // Bronze per instruction: 26 levels across two tracks of 15 and 11.
    for _ in 0..20 {
        upgrades.track_level_up(UpgradeId::BronzePerInstruction, 0);
    }
    for _ in 0..20 {
        upgrades.track_level_up(UpgradeId::BronzePerInstruction, 1);
    }
    assert_eq!(upgrades.total_level(UpgradeId::BronzePerInstruction), 26);
    assert_eq!(upgrades.track_get_level(UpgradeId::BronzePerInstruction, 0), 20);
    assert_eq!(upgrades.track_get_level(UpgradeId::BronzePerInstruction, 1), 6);
}

#[test]
fn value_tables_follow_the_level() {
    let mut upgrades = Upgrades::new();
    assert_eq!(upgrades.max_instructions(), 100);
    assert_eq!(upgrades.literals(), (false, 1));
    assert_eq!(upgrades.statements(), CodeStatementLevels::NoneUnlocked);
    assert_eq!(upgrades.auto_run_millis(), None);
    upgrades.track_level_up(UpgradeId::MaxInstructions, 0);
    upgrades.track_level_up(UpgradeId::Literals, 0);
    upgrades.track_level_up(UpgradeId::Statements, 0);
    upgrades.track_level_up(UpgradeId::AutoRun, 0);
    assert_eq!(upgrades.max_instructions(), 1000);
    assert_eq!(upgrades.literals(), (false, 2));
    assert_eq!(upgrades.statements(), CodeStatementLevels::SimpleLoops);
    assert_eq!(upgrades.auto_run_millis(), Some(18_000));
}

#[test]
fn catalog_of_upgrades() {
    assert_eq!(UpgradeId::InstructionExecutionSpeed.count_tracks(), 4);
    assert_eq!(UpgradeId::InstructionExecutionSpeed.max_level(), 22);
    assert_eq!(UpgradeId::MaxInstructions.group(), 2);
    assert_eq!(UpgradeId::UnlockLevel2.group(), 1);
    assert_eq!(UpgradeId::WinCondition.index(), 33);
}
