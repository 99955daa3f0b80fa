//! The decisions of the game's scenes and terminal commands: which upgrade groups are
//! shown, the texts of the volume and reboot commands and how they answer keys, the
//! boot text, and what committing upgrades sets in motion.
use vstd::prelude::*;
use crate::upgrades::{
    UpgradeId, Upgrades, UPGRADES_LEN, auto_run_table, group_of, max_level_of, total_of, track_lens,
};
use crate::values::{decimal, decimal_text};
use vstd::string::StringSliceAdditionalSpecFns;

verus! {

/// Events of the application itself rather than of the player.
#[derive(Clone, Copy, Debug, PartialEq, Eq, Structural)]
pub enum MetaEvent {
    ResizeApp,
    SigTerm,
}

/// The state of the compilation that runs beside the game.
#[derive(Debug, PartialEq, Eq)]
pub enum CompileThreadStatus {
    /// No compilation runs; the last one ended so.
    Idle(Result<(), String>),
    Running,
    Cancelled,
}

impl CompileThreadStatus {
    /// The status after a request to cancel: a running compilation is cancelled, any
    /// other status stays.
    pub fn cancel(&mut self)
        ensures
            *final(self) == (if *old(self) == CompileThreadStatus::Running {
                CompileThreadStatus::Cancelled
            } else {
                *old(self)
            }),
    {
        if let CompileThreadStatus::Running = self {
            *self = CompileThreadStatus::Cancelled;
        }
    }
}

/// The scene shown when the application starts.
#[derive(Clone, Copy, Debug, PartialEq, Eq, Structural)]
pub struct AppStartScene;

impl AppStartScene {
    pub fn new() -> (r: Self)
        ensures
            r == AppStartScene,
    {
        AppStartScene
    }
}

/// The scene shown when the game is won.
#[derive(Clone, Copy, Debug, PartialEq, Eq, Structural)]
pub struct VictoryScene;

impl VictoryScene {
    pub fn new() -> (r: Self)
        ensures
            r == VictoryScene,
    {
        VictoryScene
    }

    /// The lines of the victory message.
    pub fn message_lines() -> (r: Vec<String>)
        ensures
            r@.len() == 5,
            r@[0]@ == "Congratulations!"@,
            r@[1]@ == ""@,
            r@[2]@ == "You have completed the game."@,
            r@[3]@ == ""@,
            r@[4]@ == "Thank you for playing :)"@,
    {
        let mut r: Vec<String> = Vec::new();
        r.push(String::from_str("Congratulations!"));
        r.push(String::from_str(""));
        r.push(String::from_str("You have completed the game."));
        r.push(String::from_str(""));
        r.push(String::from_str("Thank you for playing :)"));
        r
    }
}

/// The lines of text typed while the machine boots.
pub open spec fn boot_lines_spec() -> Seq<&'static str> {
    seq![
        "INCREMENTAL-CODE BIOS v1.0",
        "(C) 2026",
        "Game by Andreas Tollkötter",
        "Music by Purrplecat",
        "",
        "CPU: NotPython Runtime @ 1.0 GHz  [ OK ]",
        "Memory check: 640K                [ OK ]",
        "Filesystem: ext4                  [ OK ]",
        "",
        "Loading kernel modules ...        [ OK ]",
        "Starting Game v0.1.0 ...",
        "",
        "> System ready.",
    ]
}

/// The lines of text typed while the machine boots.
pub fn boot_lines() -> (r: Vec<&'static str>)
    ensures
        r@ == boot_lines_spec(),
{
    let mut r: Vec<&'static str> = Vec::new();
    r.push("INCREMENTAL-CODE BIOS v1.0");
    r.push("(C) 2026");
    r.push("Game by Andreas Tollkötter");
    r.push("Music by Purrplecat");
    r.push("");
    r.push("CPU: NotPython Runtime @ 1.0 GHz  [ OK ]");
    r.push("Memory check: 640K                [ OK ]");
    r.push("Filesystem: ext4                  [ OK ]");
    r.push("");
    r.push("Loading kernel modules ...        [ OK ]");
    r.push("Starting Game v0.1.0 ...");
    r.push("");
    r.push("> System ready.");
    assert(r@ =~= boot_lines_spec());
    r
}

/// A sum that stops at the largest `usize`.
pub open spec fn sat_usize(a: nat, b: nat) -> nat {
    if a + b > usize::MAX { usize::MAX as nat } else { a + b }
}

/// The number of bytes of the first `n` lines, each with its line break.
pub open spec fn boot_chars(lines: Seq<&str>, n: nat) -> nat
    decreases n,
{
    if n == 0 || n > lines.len() {
        0
    } else {
        sat_usize(sat_usize(boot_chars(lines, (n - 1) as nat), (lines[n - 1].spec_bytes().len() as usize) as nat), 1)
    }
}

/// The number of bytes of the boot text, each line with its line break.
pub fn total_boot_chars() -> (r: usize)
    ensures
        r == boot_chars(boot_lines_spec(), 13),
{
    let lines = boot_lines();
    let mut total: usize = 0;
    let mut i: usize = 0;
    while i < lines.len()
        invariant
            0 <= i <= lines@.len(),
            lines@ == boot_lines_spec(),
            total == boot_chars(lines@, i as nat),
        decreases lines@.len() - i,
    {
        total = total.saturating_add(lines[i].len()).saturating_add(1);
        i = i + 1;
    }
    total
}

/// The lines shown while the first `remaining` bytes of the boot text are typed: each
/// line is shown as far as it is typed, counting each line's bytes and its line break,
/// and no line is shown once nothing is left.
pub open spec fn typed_lines(lines: Seq<&str>, remaining: nat) -> Seq<Seq<char>>
    decreases lines.len(),
{
    if lines.len() == 0 || remaining == 0 {
        Seq::empty()
    } else {
        let first = lines[0];
        let shown = if remaining <= first@.len() { remaining } else { first@.len() };
        let used = (first.spec_bytes().len() as usize) as nat + 1;
        seq![first@.take(shown as int)] + typed_lines(
            lines.drop_first(),
            if remaining > used { (remaining - used) as nat } else { 0 },
        )
    }
}

/// The lines of the boot text shown once `chars_shown` of it are typed.
pub fn typed_boot_lines(chars_shown: usize) -> (r: Vec<String>)
    ensures
        r@.map_values(|s: String| s@) == typed_lines(boot_lines_spec(), chars_shown as nat),
{
    let lines = boot_lines();
    let n = lines.len();
    let mut r: Vec<String> = Vec::new();
    let mut remaining = chars_shown;
    let mut i: usize = 0;
    assert(lines@.subrange(0, n as int) =~= lines@);
    assert(r@.map_values(|s: String| s@) + typed_lines(lines@, chars_shown as nat)
        =~= typed_lines(lines@, chars_shown as nat));
    while i < n && remaining > 0
        invariant
            lines@ == boot_lines_spec(),
            n == lines@.len(),
            0 <= i <= n,
            r@.map_values(|s: String| s@) + typed_lines(lines@.subrange(i as int, n as int), remaining as nat)
                == typed_lines(boot_lines_spec(), chars_shown as nat),
        decreases n - i,
    {
        let ghost sub = lines@.subrange(i as int, n as int);
        let ghost rest = lines@.subrange(i + 1, n as int);
        assert(sub.drop_first() =~= rest);
        assert(sub[0] == lines@[i as int]);
        let line = lines[i];
        let len = line.unicode_len();
        let shown = if remaining <= len { remaining } else { len };
        let part = line.substring_char(0, shown);
        assert(part@ =~= line@.take(shown as int));
        let ghost before = r@.map_values(|s: String| s@);
        let ghost rem_before = remaining as nat;
        r.push(String::from_str(part));
        assert(r@.map_values(|s: String| s@) =~= before.push(part@));
        let used = line.len();
        remaining = if used < remaining && remaining - used > 1 { remaining - used - 1 } else { 0 };
        assert(typed_lines(sub, rem_before) == seq![part@] + typed_lines(rest, remaining as nat));
        assert(before.push(part@) + typed_lines(rest, remaining as nat)
            =~= before + (seq![part@] + typed_lines(rest, remaining as nat)));
        i = i + 1;
    }
    assert(r@.map_values(|s: String| s@) + typed_lines(lines@.subrange(i as int, n as int), remaining as nat)
        =~= r@.map_values(|s: String| s@)) by {
        if i == n {
            assert(lines@.subrange(n as int, n as int) =~= Seq::<&str>::empty());
        }
    }
    r
}

/// The number of characters of the boot text typed after `elapsed_nanos` nanoseconds at
/// `char_per_sec` characters a second.
pub fn boot_chars_shown(elapsed_nanos: u64, char_per_sec: u32) -> (r: u64)
    requires
        (elapsed_nanos as nat * char_per_sec as nat) / 1_000_000_000 <= u64::MAX,
    ensures
        r == (elapsed_nanos as nat * char_per_sec as nat) / 1_000_000_000,
{
    let a = elapsed_nanos as u128;
    let b = char_per_sec as u128;
    assert(a * b <= 0xFFFF_FFFF_FFFF_FFFFu128 * 0xFFFF_FFFFu128) by (nonlinear_arith)
        requires
            a <= 0xFFFF_FFFF_FFFF_FFFFu128,
            b <= 0xFFFF_FFFFu128,
    ;
    let product = a * b;
    let q = product / 1_000_000_000;
    q as u64
}

/// Whether the boot text is done after `elapsed_nanos` nanoseconds: all of it typed at
/// `char_per_sec` characters a second, and a pause of one and a half seconds passed.
pub fn boot_text_finished(elapsed_nanos: u64, char_per_sec: u32) -> (r: bool)
    requires
        char_per_sec > 0,
    ensures
        r == (elapsed_nanos >= boot_chars(boot_lines_spec(), 13) * 1_000_000_000 / (char_per_sec as nat)
            + 1_500_000_000),
{
    let total = total_boot_chars() as u128;
    proof {
        lemma_boot_chars_bound(boot_lines_spec(), 13);
    }
    let typing = total * 1_000_000_000 / (char_per_sec as u128);
    (elapsed_nanos as u128) >= typing + 1_500_000_000
}

proof fn lemma_boot_chars_bound(lines: Seq<&str>, n: nat)
    ensures
        boot_chars(lines, n) <= usize::MAX,
    decreases n,
{
    if n > 0 && n <= lines.len() {
        lemma_boot_chars_bound(lines, (n - 1) as nat);
    }
}

/// The state of the volume command: the volume before, the volume chosen, and whether
/// the command has ended and was cancelled.
#[derive(Clone, Copy, Debug, PartialEq, Eq, Structural)]
pub struct VolumeCmd {
    pub original: u8,
    pub current: u8,
    pub done: bool,
    pub cancelled: bool,
}

/// The keys that commands answer to.
#[derive(Clone, Copy, Debug, PartialEq, Eq, Structural)]
pub enum CommandKey {
    Left,
    Right,
    Up,
    Down,
    Tab,
    Enter,
    Esc,
    Char(char),
    Other,
}

/// `n` copies of the character `c`.
pub open spec fn char_run(c: char, n: nat) -> Seq<char> {
    Seq::new(n, |i: int| c)
}

/// The number of filled cells of the volume bar, out of 20.
pub open spec fn filled_cells(volume: u8) -> nat {
    let f = (volume as nat * 20) / 100;
    if f <= 20 { f } else { 20 }
}

/// The volume bar: twenty cells, filled in proportion to the volume, and the percentage.
pub open spec fn volume_bar(volume: u8) -> Seq<char> {
    "Volume: ["@ + char_run('█', filled_cells(volume)) + char_run('░', (20 - filled_cells(volume)) as nat) + "] "@
        + decimal(volume as nat) + "%"@
}

/// What the volume command does with a key: the new state, and whether the audio volume
/// must follow the chosen volume.
pub open spec fn volume_key(s: VolumeCmd, key: CommandKey) -> (VolumeCmd, bool) {
    if s.done {
        (s, false)
    } else {
        match key {
            CommandKey::Left => (VolumeCmd { current: if s.current == 0 { 0 } else { (s.current - 1) as u8 }, ..s }, true),
            CommandKey::Right => (VolumeCmd { current: if s.current >= 100 { 100 } else { (s.current + 1) as u8 }, ..s }, true),
            CommandKey::Enter => (VolumeCmd { done: true, ..s }, false),
            CommandKey::Esc => (VolumeCmd { current: s.original, done: true, cancelled: true, ..s }, true),
            _ => (s, false),
        }
    }
}

fn repeat_char(c: char, n: usize) -> (r: String)
    requires
        c == '█' || c == '░',
    ensures
        r@ == char_run(c, n as nat),
{
    let unit = if c == '█' { String::from_str("█") } else { String::from_str("░") };
    proof {
        reveal_strlit("█");
        reveal_strlit("░");
    }
    let mut r = String::new();
    let mut i: usize = 0;
    while i < n
        invariant
            0 <= i <= n,
            unit@ == (if c == '█' { seq!['█'] } else { seq!['░'] }),
            r@ == char_run(if c == '█' { '█' } else { '░' }, i as nat),
        decreases n - i,
    {
        r.append(unit.as_str());
        assert(r@ =~= char_run(if c == '█' { '█' } else { '░' }, (i + 1) as nat));
        i = i + 1;
    }
    assert(c == '█' || c == '░' ==> r@ =~= char_run(c, n as nat));
    r
}

impl VolumeCmd {
    /// The command as it starts, at the current volume.
    pub fn new(initial: u8) -> (r: Self)
        ensures
            r == (VolumeCmd { original: initial, current: initial, done: false, cancelled: false }),
    {
        VolumeCmd { original: initial, current: initial, done: false, cancelled: false }
    }

    /// The volume bar of the chosen volume.
    pub fn bar_text(&self) -> (r: String)
        ensures
            r@ == volume_bar(self.current),
    {
        let f = (self.current as usize) * 20 / 100;
        let filled = if f <= 20 { f } else { 20 };
        let empty = 20 - filled;
        let a = repeat_char('█', filled);
        let b = repeat_char('░', empty);
        let pct = decimal_text(self.current as u64);
        let r = String::from_str("Volume: [").concat(a.as_str()).concat(b.as_str()).concat("] ").concat(pct.as_str()).concat("%");
        assert(r@ =~= volume_bar(self.current));
        r
    }

    /// What the command shows: the bar while it runs, then the volume it ended with.
    pub fn text(&self) -> (r: String)
        ensures
            r@ == (if !self.done {
                volume_bar(self.current)
            } else if self.cancelled {
                "Volume restored to "@ + decimal(self.original as nat) + "%."@
            } else {
                "Volume set to "@ + decimal(self.current as nat) + "%."@
            }),
    {
        if !self.done {
            self.bar_text()
        } else if self.cancelled {
            let d = decimal_text(self.original as u64);
            String::from_str("Volume restored to ").concat(d.as_str()).concat("%.")
        } else {
            let d = decimal_text(self.current as u64);
            String::from_str("Volume set to ").concat(d.as_str()).concat("%.")
        }
    }

    /// Answers a key; returns whether the audio volume must now follow the chosen volume.
    pub fn handle_key(&mut self, key: CommandKey) -> (sync: bool)
        ensures
            (*final(self), sync) == volume_key(*old(self), key),
    {
        if self.done {
            return false;
        }
        match key {
            CommandKey::Left => {
                self.current = self.current.saturating_sub(1);
                true
            },
            CommandKey::Right => {
                let up = self.current.saturating_add(1);
                self.current = if up <= 100 { up } else { 100 };
                true
            },
            CommandKey::Enter => {
                self.done = true;
                false
            },
            CommandKey::Esc => {
                self.current = self.original;
                self.done = true;
                self.cancelled = true;
                true
            },
            _ => false,
        }
    }
}

/// The state of the reboot command.
#[derive(Clone, Copy, Debug, PartialEq, Eq, Structural)]
pub enum RebootState {
    Asking,
    Confirmed,
    Cancelled,
}

/// The reboot command.
#[derive(Clone, Copy, Debug, PartialEq, Eq, Structural)]
pub struct RebootCmd {
    pub state: RebootState,
}

/// The text of the reboot command, given the resources a reboot would give, as text.
pub open spec fn reboot_text(state: RebootState, gain: Seq<char>) -> Seq<char> {
    match state {
        RebootState::Asking => "This will reset all upgrades but give additional resources.\nWith your current resources, you will restart with "@
            + gain + "\nReboot?  [y/N]"@,
        RebootState::Confirmed => "Rebooting..."@,
        RebootState::Cancelled => "Reboot cancelled."@,
    }
}

/// What the reboot command does with a key: the new state, and whether to reboot now.
pub open spec fn reboot_key(state: RebootState, key: CommandKey) -> (RebootState, bool) {
    if state != RebootState::Asking {
        (state, false)
    } else {
        match key {
            CommandKey::Char(c) => if c == 'y' || c == 'Y' {
                (RebootState::Confirmed, true)
            } else if c == 'n' || c == 'N' {
                (RebootState::Cancelled, false)
            } else {
                (state, false)
            },
            CommandKey::Esc | CommandKey::Enter => (RebootState::Cancelled, false),
            _ => (state, false),
        }
    }
}

impl RebootCmd {
    /// The command as it starts: asking for confirmation.
    pub fn new() -> (r: Self)
        ensures
            r.state == RebootState::Asking,
    {
        RebootCmd { state: RebootState::Asking }
    }

    /// The command has ended without a reboot.
    pub fn is_done(&self) -> (r: bool)
        ensures
            r == (self.state == RebootState::Cancelled),
    {
        self.state == RebootState::Cancelled
    }

    /// The game must switch to the reboot scene: the reboot was confirmed.
    pub fn switches_to_reboot(&self) -> (r: bool)
        ensures
            r == (self.state == RebootState::Confirmed),
    {
        self.state == RebootState::Confirmed
    }

    /// The text the command shows.
    pub fn current_text(&self, gain_text: &str) -> (r: String)
        ensures
            r@ == reboot_text(self.state, gain_text@),
    {
        match self.state {
            RebootState::Asking => String::from_str(
                "This will reset all upgrades but give additional resources.\nWith your current resources, you will restart with ",
            ).concat(gain_text).concat("\nReboot?  [y/N]"),
            RebootState::Confirmed => String::from_str("Rebooting..."),
            RebootState::Cancelled => String::from_str("Reboot cancelled."),
        }
    }

    /// Answers a key; returns whether the game must reboot now.
    pub fn handle_key(&mut self, key: CommandKey) -> (reboot: bool)
        ensures
            (final(self).state, reboot) == reboot_key(old(self).state, key),
    {
        if self.state != RebootState::Asking {
            return false;
        }
        match key {
            CommandKey::Char(c) => {
                if c == 'y' || c == 'Y' {
                    self.state = RebootState::Confirmed;
                    true
                } else if c == 'n' || c == 'N' {
                    self.state = RebootState::Cancelled;
                    false
                } else {
                    false
                }
            },
            CommandKey::Esc | CommandKey::Enter => {
                self.state = RebootState::Cancelled;
                false
            },
            _ => false,
        }
    }
}

/// The upgrade that unlocks each tier, by position; tier zero is always unlocked.
pub open spec fn tier_unlock_index(g: nat) -> nat {
    if g == 1 { 3 } else if g == 2 { 10 } else if g == 3 { 15 } else if g == 4 { 21 } else if g == 5 { 27 } else { 31 }
}

/// Whether each of the seven tiers is unlocked.
pub open spec fn tier_unlocked(levels: Seq<Seq<u8>>, g: nat) -> bool {
    g == 0 || total_of(levels[tier_unlock_index(g) as int]) == 1
}

/// Whether each of the seven upgrade tiers is unlocked.
pub fn groups_are_unlocked(upgrades: &Upgrades) -> (r: [bool; 7])
    requires
        upgrades.wf(),
    ensures
        forall|g: int| 0 <= g < 7 ==> #[trigger] r@[g] == tier_unlocked(upgrades@, g as nat),
{
    let r = [
        true,
        upgrades.is_unlocked(UpgradeId::UnlockLevel1),
        upgrades.is_unlocked(UpgradeId::UnlockLevel2),
        upgrades.is_unlocked(UpgradeId::UnlockLevel3),
        upgrades.is_unlocked(UpgradeId::UnlockLevel4),
        upgrades.is_unlocked(UpgradeId::UnlockLevel5),
        upgrades.is_unlocked(UpgradeId::UnlockLevel6),
    ];
    r
}

/// A track can still be bought: the upgrade is below its highest level, and the track
/// below its own number of levels.
pub open spec fn track_purchasable(levels: Seq<Seq<u8>>, i: nat, t: nat) -> bool {
    total_of(levels[i as int]) < max_level_of(i) && levels[i as int][t as int] < track_lens(i)[t as int]
}

/// A tier is finished when it has an upgrade and no track of its upgrades can be bought.
pub open spec fn tier_finished(levels: Seq<Seq<u8>>, g: nat) -> bool {
    &&& exists|i: int| 0 <= i < UPGRADES_LEN && #[trigger] group_of(i as nat) == g
    &&& forall|i: int, t: int| 0 <= i < UPGRADES_LEN && group_of(i as nat) == g && 0 <= t < track_lens(i as nat).len()
        ==> !(#[trigger] track_purchasable(levels, i as nat, t as nat))
}

pub(crate) fn id_at(i: usize) -> (r: UpgradeId)
    requires
        i < UPGRADES_LEN,
    ensures
        crate::upgrades::id_index(r) == i,
{
    if i == 0 { UpgradeId::UnlockCode }
    else if i == 1 { UpgradeId::UnlockHud }
    else if i == 2 { UpgradeId::UnlockMusic }
    else if i == 3 { UpgradeId::UnlockLevel1 }
    else if i == 4 { UpgradeId::CompileTime }
    else if i == 5 { UpgradeId::InstructionExecutionSpeed }
    else if i == 6 { UpgradeId::CodeLineWidth }
    else if i == 7 { UpgradeId::CodeLineCount }
    else if i == 8 { UpgradeId::MaxInstructions }
    else if i == 9 { UpgradeId::Literals }
    else if i == 10 { UpgradeId::UnlockLevel2 }
    else if i == 11 { UpgradeId::BronzePerInstruction }
    else if i == 12 { UpgradeId::Statements }
    else if i == 13 { UpgradeId::UnlockReboot }
    else if i == 14 { UpgradeId::KeepPrestigeUpgrades }
    else if i == 15 { UpgradeId::UnlockLevel3 }
    else if i == 16 { UpgradeId::AutoCompile }
    else if i == 17 { UpgradeId::UnlockSleep }
    else if i == 18 { UpgradeId::SleepSpeedReset }
    else if i == 19 { UpgradeId::SilverPerSleepSecond }
    else if i == 20 { UpgradeId::ResourcesAfterReboot }
    else if i == 21 { UpgradeId::UnlockLevel4 }
    else if i == 22 { UpgradeId::AutoRun }
    else if i == 23 { UpgradeId::UnlockPrint }
    else if i == 24 { UpgradeId::MinInstructionDuration }
    else if i == 25 { UpgradeId::KeepCodeOnPrestige }
    else if i == 26 { UpgradeId::GoldPrintLogNesting }
    else if i == 27 { UpgradeId::UnlockLevel5 }
    else if i == 28 { UpgradeId::UnlockBrk }
    else if i == 29 { UpgradeId::BrkSlowdown }
    else if i == 30 { UpgradeId::DiamondPerBrk }
    else if i == 31 { UpgradeId::UnlockLevel6 }
    else if i == 32 { UpgradeId::AdditiveReboot }
    else { UpgradeId::WinCondition }
}

impl Upgrades {
    /// Whether a track of an upgrade can still be bought.
    pub fn track_purchasable(&self, id: UpgradeId, track: usize) -> (r: bool)
        requires
            self.wf(),
            track < track_lens(crate::upgrades::id_index(id)).len(),
        ensures
            r == track_purchasable(self@, crate::upgrades::id_index(id), track as nat),
    {
        self.total_level(id) < id.max_level() && self.track_get_level(id, track) < id.track_max_level(track)
    }
}

/// Whether every upgrade of a tier has no track left to buy, where the tier has upgrades.
pub fn group_is_finished(upgrades: &Upgrades, group_i: usize) -> (r: bool)
    requires
        upgrades.wf(),
    ensures
        r == tier_finished(upgrades@, group_i as nat),
{
    let mut any = false;
    let mut i: usize = 0;
    while i < UPGRADES_LEN
        invariant
            upgrades.wf(),
            0 <= i <= UPGRADES_LEN,
            any == exists|k: int| 0 <= k < i && #[trigger] group_of(k as nat) == group_i,
            forall|k: int, t: int| 0 <= k < i && group_of(k as nat) == group_i && 0 <= t < track_lens(k as nat).len()
                ==> !(#[trigger] track_purchasable(upgrades@, k as nat, t as nat)),
        decreases UPGRADES_LEN - i,
    {
        let id = id_at(i);
        if id.group() == group_i {
            assert(group_of(i as nat) == group_i);
            any = true;
            let n = id.count_tracks();
            let mut t: usize = 0;
            while t < n
                invariant
                    upgrades.wf(),
                    i < UPGRADES_LEN,
                    crate::upgrades::id_index(id) == i,
                    n == track_lens(i as nat).len(),
                    0 <= t <= n,
                    forall|j: int| 0 <= j < t ==> !(#[trigger] track_purchasable(upgrades@, i as nat, j as nat)),
                    group_of(i as nat) == group_i,
                    any,
                    forall|k: int, t2: int| 0 <= k < i && group_of(k as nat) == group_i && 0 <= t2 < track_lens(k as nat).len()
                        ==> !(#[trigger] track_purchasable(upgrades@, k as nat, t2 as nat)),
                decreases n - t,
            {
                if upgrades.track_purchasable(id, t) {
                    proof {
                        let ii: int = i as int;
                        let tt: int = t as int;
                        assert(track_purchasable(upgrades@, ii as nat, tt as nat));
                        assert(!tier_finished(upgrades@, group_i as nat));
                    }
                    return false;
                }
                t = t + 1;
            }
            proof {
                let ii: int = i as int;
                assert(group_of(ii as nat) == group_i);
            }
        } else {
            assert(group_of(i as nat) != group_i);
        }
        i = i + 1;
    }
    any
}

/// The label of a tier in the upgrade tree.
pub open spec fn tier_label(g: nat, finished: bool) -> Seq<char> {
    "Level "@ + decimal(g) + " upgrades"@ + if finished { " ✅"@ } else { Seq::empty() }
}

/// The tiers shown in the upgrade tree, the unlocked ones in order, each with its label.
pub fn build_tree_items(upgrades: &Upgrades) -> (r: Vec<(usize, String)>)
    requires
        upgrades.wf(),
    ensures
        forall|k: int| 0 <= k < r@.len() ==> tier_unlocked(upgrades@, (#[trigger] r@[k]).0 as nat)
            && r@[k].0 < 7
            && r@[k].1@ == tier_label(r@[k].0 as nat, tier_finished(upgrades@, r@[k].0 as nat)),
        forall|k: int, l: int| 0 <= k < l < r@.len() ==> r@[k].0 < r@[l].0,
        forall|g: int| 0 <= g < 7 && #[trigger] tier_unlocked(upgrades@, g as nat) ==> exists|k: int| 0 <= k < r@.len() && r@[k].0 == g,
{
    let unlocked = groups_are_unlocked(upgrades);
    let mut r: Vec<(usize, String)> = Vec::new();
    let mut g: usize = 0;
    while g < 7
        invariant
            upgrades.wf(),
            0 <= g <= 7,
            forall|h: int| 0 <= h < 7 ==> #[trigger] unlocked@[h] == tier_unlocked(upgrades@, h as nat),
            forall|k: int| 0 <= k < r@.len() ==> tier_unlocked(upgrades@, (#[trigger] r@[k]).0 as nat)
                && r@[k].0 < g
                && r@[k].1@ == tier_label(r@[k].0 as nat, tier_finished(upgrades@, r@[k].0 as nat)),
            forall|k: int, l: int| 0 <= k < l < r@.len() ==> r@[k].0 < r@[l].0,
            forall|h: int| 0 <= h < g && #[trigger] tier_unlocked(upgrades@, h as nat) ==> exists|k: int| 0 <= k < r@.len() && r@[k].0 == h,
        decreases 7 - g,
    {
        if unlocked[g] {
            let finished = group_is_finished(upgrades, g);
            let d = decimal_text(g as u64);
            let base = String::from_str("Level ").concat(d.as_str()).concat(" upgrades");
            let label = if finished { base.concat(" ✅") } else { base };
            assert(label@ =~= tier_label(g as nat, finished));
            let ghost before = r@;
            r.push((g, label));
            assert(r@[r@.len() - 1].0 == g);
            assert forall|h: int| 0 <= h < g + 1 && #[trigger] tier_unlocked(upgrades@, h as nat) implies exists|k: int| 0 <= k < r@.len() && r@[k].0 == h by {
                if h < g {
                    let k = choose|k: int| 0 <= k < before.len() && before[k].0 == h;
                    assert(r@[k].0 == h);
                } else {
                    assert(r@[r@.len() - 1].0 == h);
                }
            }
        }
        g = g + 1;
    }
    r
}

/// The number of upgrades among the first `n` that belong to tier `g`.
pub open spec fn tier_size(g: nat, n: nat) -> nat
    decreases n,
{
    if n == 0 {
        0
    } else {
        tier_size(g, (n - 1) as nat) + if group_of((n - 1) as nat) == g { 1nat } else { 0nat }
    }
}

/// The nodes of one tier of the upgrade tree: one per upgrade, by tier and position.
pub open spec fn tier_nodes(g: nat, count: nat) -> Seq<(usize, usize)> {
    Seq::new(count, |u: int| (g as usize, u as usize))
}

/// The nodes of the first `g` tiers that are open: those of the unlocked tiers, in order.
pub open spec fn open_nodes(levels: Seq<Seq<u8>>, g: nat) -> Seq<(usize, usize)>
    decreases g,
{
    if g == 0 {
        Seq::empty()
    } else {
        let h = (g - 1) as nat;
        open_nodes(levels, h) + if tier_unlocked(levels, h) {
            tier_nodes(h, tier_size(h, UPGRADES_LEN as nat))
        } else {
            Seq::empty()
        }
    }
}

/// The nodes of the upgrade tree to open: in every unlocked tier, one per upgrade of
/// the tier, by tier and position within it.
pub fn open_all_upgrade_nodes(upgrades: &Upgrades) -> (r: Vec<(usize, usize)>)
    requires
        upgrades.wf(),
    ensures
        r@ == open_nodes(upgrades@, 7),
{
    let unlocked = groups_are_unlocked(upgrades);
    let mut r: Vec<(usize, usize)> = Vec::new();
    let mut g: usize = 0;
    while g < 7
        invariant
            0 <= g <= 7,
            forall|h: int| 0 <= h < 7 ==> #[trigger] unlocked@[h] == tier_unlocked(upgrades@, h as nat),
            r@ == open_nodes(upgrades@, g as nat),
        decreases 7 - g,
    {
        let ghost before = r@;
        if unlocked[g] {
            let mut count: usize = 0;
            let mut i: usize = 0;
            while i < UPGRADES_LEN
                invariant
                    0 <= i <= UPGRADES_LEN,
                    count <= i,
                    count == tier_size(g as nat, i as nat),
                decreases UPGRADES_LEN - i,
            {
                if id_at(i).group() == g {
                    count = count + 1;
                }
                i = i + 1;
            }
            let mut u: usize = 0;
            while u < count
                invariant
                    0 <= u <= count,
                    r@ == before + tier_nodes(g as nat, u as nat),
                decreases count - u,
            {
                r.push((g, u));
                assert(r@ =~= before + tier_nodes(g as nat, (u + 1) as nat));
                u = u + 1;
            }
        } else {
            assert(r@ =~= before + Seq::<(usize, usize)>::empty());
        }
        g = g + 1;
    }
    r
}

/// What committing a change of upgrades sets in motion.
#[derive(Clone, Copy, Debug, PartialEq, Eq, Structural)]
pub struct CommitActions {
    /// Whether the music plays.
    pub music_on: bool,
    /// Whether the last failed run is forgotten, so that the program is compiled anew.
    pub clear_failed_run: bool,
    /// The period of automatic runs in milliseconds; none stops them.
    pub auto_run_millis: Option<u64>,
    /// Whether the game is won.
    pub won: bool,
}

/// What committing upgrades sets in motion, given whether the last run failed.
pub fn on_upgrades_commit(upgrades: &Upgrades, last_run_failed: bool) -> (r: CommitActions)
    requires
        upgrades.wf(),
    ensures
        r.music_on == (total_of(upgrades@[2]) == 1),
        r.clear_failed_run == last_run_failed,
        r.auto_run_millis == auto_run_table()[total_of(upgrades@[22]) as int],
        r.won == (total_of(upgrades@[33]) == 1),
{
    CommitActions {
        music_on: upgrades.is_unlocked(UpgradeId::UnlockMusic),
        clear_failed_run: last_run_failed,
        auto_run_millis: upgrades.auto_run_millis(),
        won: upgrades.is_unlocked(UpgradeId::WinCondition),
    }
}


/// How the player answered the dialog about unsaved changes.
#[derive(Clone, Copy, Debug, PartialEq, Eq, Structural)]
pub enum ConfirmResult {
    Yes,
    No,
    Cancel,
}

/// What the code editor does after the dialog about unsaved changes.
#[derive(Clone, Copy, Debug, PartialEq, Eq, Structural)]
pub enum DialogOutcome {
    SaveAndLeave,
    Leave,
    Stay,
}

/// The code editor: the code as it was when editing began, and whether the dialog
/// about unsaved changes is open.
#[derive(Clone, Debug, PartialEq, Eq)]
pub struct CodeEditorScene {
    pub original_code: String,
    pub confirming_exit: bool,
}

impl CodeEditorScene {
    /// The editor as it opens on the player's code.
    pub fn new(code: String) -> (r: Self)
        ensures
            r.original_code@ == code@,
            !r.confirming_exit,
    {
        CodeEditorScene { original_code: code, confirming_exit: false }
    }

    /// The player asks to leave with the edited `content`: the editor leaves at once when
    /// nothing changed, and otherwise opens the dialog about unsaved changes.
    pub fn exit_requested(&mut self, content: &String) -> (leave: bool)
        ensures
            leave == (content@ == old(self).original_code@),
            final(self).confirming_exit == (old(self).confirming_exit || !leave),
            final(self).original_code == old(self).original_code,
    {
        if *content == self.original_code {
            true
        } else {
            self.confirming_exit = true;
            false
        }
    }

    /// The player answered the dialog: save and leave, leave, or go on editing.
    pub fn dialog_answered(&mut self, answer: ConfirmResult) -> (r: DialogOutcome)
        ensures
            r == (match answer {
                ConfirmResult::Yes => DialogOutcome::SaveAndLeave,
                ConfirmResult::No => DialogOutcome::Leave,
                ConfirmResult::Cancel => DialogOutcome::Stay,
            }),
            final(self).confirming_exit == (old(self).confirming_exit && answer != ConfirmResult::Cancel),
            final(self).original_code == old(self).original_code,
    {
        match answer {
            ConfirmResult::Yes => DialogOutcome::SaveAndLeave,
            ConfirmResult::No => DialogOutcome::Leave,
            ConfirmResult::Cancel => {
                self.confirming_exit = false;
                DialogOutcome::Stay
            },
        }
    }
}

/// Storage in the browser's local storage.
#[derive(Clone, Copy, Debug, PartialEq, Eq, Structural)]
pub struct StoreWeb {}

impl StoreWeb {
    /// The entry of local storage that holds the data saved under `key`.
    pub fn storage_key(&self, key: &str) -> (r: String)
        ensures
            r@ == "save_"@ + key@,
    {
        String::from_str("save_").concat(key)
    }
}

/// Storage in files of a data directory.
#[derive(Clone, Debug, PartialEq, Eq)]
pub struct StoreNative {
    pub directory: String,
}

impl StoreNative {
    /// The name of the file, in the data directory, that holds the data saved under `key`.
    pub fn file_name(&self, key: &str) -> (r: String)
        ensures
            r@ == key@ + ".json"@,
    {
        String::from_str(key).concat(".json")
    }
}

/// Something that advances with the time that passes between frames, in milliseconds;
/// it answers whether its periodic work is due now.
pub trait TickerMut {
    fn tick(&mut self, elapsed_millis: u64) -> (due: bool);
}

/// Saves the game state periodically.
#[derive(Clone, Copy, Debug, PartialEq, Eq, Structural)]
pub struct AutoSaver {
    pub since_last_save: u64,
    pub save_period: Option<u64>,
}

impl AutoSaver {
    /// An auto-saver that does not save until started.
    pub fn new() -> (r: Self)
        ensures
            r == (AutoSaver { since_last_save: 0, save_period: None }),
    {
        AutoSaver { since_last_save: 0, save_period: None }
    }

    /// Saves from now on every `period` milliseconds.
    pub fn start(&mut self, period: u64)
        ensures
            *final(self) == (AutoSaver { since_last_save: 0, save_period: Some(period) }),
    {
        self.save_period = Some(period);
        self.since_last_save = 0;
    }

    /// Stops saving.
    pub fn stop(&mut self)
        ensures
            *final(self) == (AutoSaver { save_period: None, ..*old(self) }),
    {
        self.save_period = None;
    }
}

/// The auto-saver after `elapsed` milliseconds, and whether it saves now.
pub open spec fn auto_saver_tick(s: AutoSaver, elapsed: u64) -> (AutoSaver, bool) {
    match s.save_period {
        Some(period) => {
            let since = if s.since_last_save + elapsed > u64::MAX { u64::MAX } else { (s.since_last_save + elapsed) as u64 };
            if since >= period {
                (AutoSaver { since_last_save: 0, ..s }, true)
            } else {
                (AutoSaver { since_last_save: since, ..s }, false)
            }
        },
        None => (s, false),
    }
}

impl TickerMut for AutoSaver {
    /// Counts the time since the last save; once a period has passed, the save is due
    /// and the count starts again.
    fn tick(&mut self, elapsed_millis: u64) -> (due: bool)
        ensures
            (*final(self), due) == auto_saver_tick(*old(self), elapsed_millis),
    {
        match self.save_period {
            Some(period) => {
                self.since_last_save = self.since_last_save.saturating_add(elapsed_millis);
                if self.since_last_save >= period {
                    self.since_last_save = 0;
                    true
                } else {
                    false
                }
            },
            None => false,
        }
    }
}

} // verus!
