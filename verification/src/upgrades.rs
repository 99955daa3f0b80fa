//! The purchasable upgrades: their levels, split into tracks bought separately, and
//! what a reboot keeps of them.
use vstd::prelude::*;
use crate::unlocks::{CodeStatementLevels, UnlockLimits};

verus! {

/// The number of upgrades.
pub const UPGRADES_LEN: usize = 34;

/// The upgrades, in the order of the upgrade list.
#[derive(Clone, Copy, Debug, PartialEq, Eq, Structural)]
pub enum UpgradeId {
    UnlockCode,
    UnlockHud,
    UnlockMusic,
    UnlockLevel1,
    CompileTime,
    InstructionExecutionSpeed,
    CodeLineWidth,
    CodeLineCount,
    MaxInstructions,
    Literals,
    UnlockLevel2,
    BronzePerInstruction,
    Statements,
    UnlockReboot,
    KeepPrestigeUpgrades,
    UnlockLevel3,
    AutoCompile,
    UnlockSleep,
    SleepSpeedReset,
    SilverPerSleepSecond,
    ResourcesAfterReboot,
    UnlockLevel4,
    AutoRun,
    UnlockPrint,
    MinInstructionDuration,
    KeepCodeOnPrestige,
    GoldPrintLogNesting,
    UnlockLevel5,
    UnlockBrk,
    BrkSlowdown,
    DiamondPerBrk,
    UnlockLevel6,
    AdditiveReboot,
    WinCondition,
}

/// The position of an upgrade in the upgrade list.
pub open spec fn id_index(id: UpgradeId) -> nat {
    match id {
        UpgradeId::UnlockCode => 0,
        UpgradeId::UnlockHud => 1,
        UpgradeId::UnlockMusic => 2,
        UpgradeId::UnlockLevel1 => 3,
        UpgradeId::CompileTime => 4,
        UpgradeId::InstructionExecutionSpeed => 5,
        UpgradeId::CodeLineWidth => 6,
        UpgradeId::CodeLineCount => 7,
        UpgradeId::MaxInstructions => 8,
        UpgradeId::Literals => 9,
        UpgradeId::UnlockLevel2 => 10,
        UpgradeId::BronzePerInstruction => 11,
        UpgradeId::Statements => 12,
        UpgradeId::UnlockReboot => 13,
        UpgradeId::KeepPrestigeUpgrades => 14,
        UpgradeId::UnlockLevel3 => 15,
        UpgradeId::AutoCompile => 16,
        UpgradeId::UnlockSleep => 17,
        UpgradeId::SleepSpeedReset => 18,
        UpgradeId::SilverPerSleepSecond => 19,
        UpgradeId::ResourcesAfterReboot => 20,
        UpgradeId::UnlockLevel4 => 21,
        UpgradeId::AutoRun => 22,
        UpgradeId::UnlockPrint => 23,
        UpgradeId::MinInstructionDuration => 24,
        UpgradeId::KeepCodeOnPrestige => 25,
        UpgradeId::GoldPrintLogNesting => 26,
        UpgradeId::UnlockLevel5 => 27,
        UpgradeId::UnlockBrk => 28,
        UpgradeId::BrkSlowdown => 29,
        UpgradeId::DiamondPerBrk => 30,
        UpgradeId::UnlockLevel6 => 31,
        UpgradeId::AdditiveReboot => 32,
        UpgradeId::WinCondition => 33,
    }
}

/// The unlock tier of the upgrade at position `i`.
pub open spec fn group_of(i: nat) -> nat {
    if i <= 3 { 0 }
    else if i <= 7 { 1 }
    else if i <= 9 { 2 }
    else if i == 10 { 1 }
    else if i <= 15 { 2 }
    else if i <= 21 { 3 }
    else if i <= 27 { 4 }
    else if i <= 31 { 5 }
    else { 6 }
}

/// The number of levels that each track of the upgrade at position `i` can be bought.
pub open spec fn track_lens(i: nat) -> Seq<nat> {
    if i == 4 { seq![6] }
    else if i == 5 { seq![7, 6, 5, 4] }
    else if i == 6 { seq![5] }
    else if i == 7 { seq![11] }
    else if i == 8 || i == 9 { seq![6] }
    else if i == 11 { seq![15, 11] }
    else if i == 12 { seq![7] }
    else if i == 14 { seq![5] }
    else if i == 18 { seq![6] }
    else if i == 19 { seq![7] }
    else if i == 20 { seq![3] }
    else if i == 22 { seq![5] }
    else if i == 24 { seq![4] }
    else if i == 26 { seq![6] }
    else if i == 29 || i == 32 { seq![2] }
    else if i == 30 { seq![3] }
    else { seq![1] }
}

/// The sum of the first `n` numbers of `s`.
pub open spec fn sum_first(s: Seq<nat>, n: nat) -> nat
    decreases n,
{
    if n == 0 || n > s.len() {
        0
    } else {
        sum_first(s, (n - 1) as nat) + s[n - 1]
    }
}

/// The sum of the levels of the first `n` tracks.
pub open spec fn level_sum(s: Seq<u8>, n: nat) -> nat
    decreases n,
{
    if n == 0 || n > s.len() {
        0
    } else {
        level_sum(s, (n - 1) as nat) + (s[n - 1] as nat)
    }
}

/// The highest level of the upgrade at position `i`: one less than its number of values.
pub open spec fn max_level_of(i: nat) -> nat {
    sum_first(track_lens(i), track_lens(i).len())
}

/// The level of an upgrade: the sum of the levels of its tracks.
pub open spec fn total_of(tracks: Seq<u8>) -> nat {
    level_sum(tracks, tracks.len())
}

/// Levels that fit the upgrade list: one list of track levels per upgrade, each
/// upgrade at most at its highest level.
pub open spec fn levels_wf(levels: Seq<Seq<u8>>) -> bool {
    &&& levels.len() == UPGRADES_LEN
    &&& forall|i: int| 0 <= i < UPGRADES_LEN ==> (#[trigger] levels[i]).len() == track_lens(i as nat).len()
    &&& forall|i: int| 0 <= i < UPGRADES_LEN ==> total_of(#[trigger] levels[i]) <= max_level_of(i as nat)
}

/// The levels after buying one level of track `t` of the upgrade at position `i`, which
/// is refused at the upgrade's highest level.
pub open spec fn level_up(levels: Seq<Seq<u8>>, i: nat, t: nat) -> Seq<Seq<u8>> {
    if total_of(levels[i as int]) < max_level_of(i) {
        levels.update(i as int, levels[i as int].update(t as int, (levels[i as int][t as int] + 1) as u8))
    } else {
        levels
    }
}

/// The levels after selling one level of track `t` of the upgrade at position `i`, which
/// leaves a track at level zero as it is.
pub open spec fn level_down(levels: Seq<Seq<u8>>, i: nat, t: nat) -> Seq<Seq<u8>> {
    let v = levels[i as int][t as int];
    levels.update(i as int, levels[i as int].update(t as int, if v == 0 { 0u8 } else { (v - 1) as u8 }))
}

/// The upgrades whose values are only locked or unlocked.
pub open spec fn is_switch(i: nat) -> bool {
    i == 0 || i == 1 || i == 2 || i == 3 || i == 10 || i == 13 || i == 15 || i == 16 || i == 17
        || i == 21 || i == 23 || i == 25 || i == 27 || i == 28 || i == 31 || i == 33
}

/// The upgrades that unlock the next tier.
pub open spec fn is_tier_unlock(i: nat) -> bool {
    i == 3 || i == 10 || i == 15 || i == 21 || i == 27 || i == 31
}

/// A reboot keeps the upgrade at position `i` when its tier is at most `keep`, or when it
/// unlocks a tier.
pub open spec fn kept_on_prestige(i: nat, keep: nat) -> bool {
    group_of(i) <= keep || is_tier_unlock(i)
}

pub open spec fn compile_time_table() -> Seq<u64> {
    seq![10_000, 5_000, 4_000, 3_000, 2_000, 1_000, 100]
}

pub open spec fn line_width_table() -> Seq<u8> {
    seq![5, 10, 15, 30, 50, 80]
}

pub open spec fn line_count_table() -> Seq<u8> {
    seq![1, 2, 4, 5, 6, 7, 8, 10, 15, 20, 30, 40]
}

pub open spec fn max_instructions_table() -> Seq<u64> {
    seq![100, 1_000, 10_000, 100_000, 10_000_000, 1_000_000_000, 1_000_000_000_000]
}

pub open spec fn literals_table() -> Seq<(bool, u8)> {
    seq![(false, 1), (false, 2), (false, 5), (false, 10), (true, 10), (true, 100), (true, 255)]
}

pub open spec fn keep_table() -> Seq<u8> {
    seq![0, 1, 2, 3, 4, 6]
}

pub open spec fn statements_table() -> Seq<CodeStatementLevels> {
    seq![
        CodeStatementLevels::NoneUnlocked,
        CodeStatementLevels::SimpleLoops,
        CodeStatementLevels::NestedLoops,
        CodeStatementLevels::Functions,
        CodeStatementLevels::Multiplication,
        CodeStatementLevels::PureFunctions,
        CodeStatementLevels::SingleRecursion,
        CodeStatementLevels::MultiRecursion,
    ]
}

pub open spec fn auto_run_table() -> Seq<Option<u64>> {
    seq![None, Some(18_000), Some(6_000), Some(2_000), Some(1_000), Some(100)]
}

pub open spec fn additive_reboot_table() -> Seq<(bool, bool)> {
    seq![(false, false), (true, false), (true, true)]
}

/// The limits that programs must keep under the given levels.
pub open spec fn limits_of(levels: Seq<Seq<u8>>) -> UnlockLimits {
    UnlockLimits {
        line_width: line_width_table()[total_of(levels[6]) as int],
        line_count: line_count_table()[total_of(levels[7]) as int],
        strings_allowed: literals_table()[total_of(levels[9]) as int].0,
        max_int: literals_table()[total_of(levels[9]) as int].1,
        statements: statements_table()[total_of(levels[12]) as int],
    }
}

/// The tier up to which a reboot keeps upgrades.
pub open spec fn keep_level(levels: Seq<Seq<u8>>) -> u8 {
    keep_table()[total_of(levels[14]) as int]
}

/// The levels of all upgrades.
#[derive(Debug, PartialEq, Eq)]
pub struct Upgrades {
    levels: Vec<Vec<u8>>,
}

impl View for Upgrades {
    type V = Seq<Seq<u8>>;

    closed spec fn view(&self) -> Seq<Seq<u8>> {
        Seq::new(self.levels@.len(), |i: int| self.levels@[i]@)
    }
}

proof fn lemma_level_sum_bound(s: Seq<u8>, n: nat, t: int)
    requires
        n <= s.len(),
        0 <= t < n,
    ensures
        s[t] <= level_sum(s, n),
    decreases n,
{
    if t < n - 1 {
        lemma_level_sum_bound(s, (n - 1) as nat, t);
    }
}

proof fn lemma_level_sum_update(s: Seq<u8>, n: nat, t: int, v: u8)
    requires
        n <= s.len(),
        0 <= t < s.len(),
    ensures
        level_sum(s.update(t, v), n) == if t < n { level_sum(s, n) - s[t] + v } else { level_sum(s, n) as int },
    decreases n,
{
    if n > 0 {
        lemma_level_sum_update(s, (n - 1) as nat, t, v);
    }
}

proof fn lemma_level_sum_zero(s: Seq<u8>, n: nat)
    requires
        n <= s.len(),
        forall|j: int| 0 <= j < s.len() ==> s[j] == 0,
    ensures
        level_sum(s, n) == 0,
    decreases n,
{
    if n > 0 {
        lemma_level_sum_zero(s, (n - 1) as nat);
    }
}

proof fn lemma_level_sum_le(a: Seq<u8>, b: Seq<u8>, n: nat)
    requires
        n <= a.len(),
        a.len() == b.len(),
        forall|j: int| 0 <= j < a.len() ==> a[j] <= b[j],
    ensures
        level_sum(a, n) <= level_sum(b, n),
    decreases n,
{
    if n > 0 {
        lemma_level_sum_le(a, b, (n - 1) as nat);
    }
}

proof fn lemma_level_sum_lt(a: Seq<u8>, b: Seq<u8>, n: nat, t: int)
    requires
        n <= a.len(),
        a.len() == b.len(),
        0 <= t < n,
        forall|j: int| 0 <= j < a.len() ==> a[j] <= b[j],
        a[t] < b[t],
    ensures
        level_sum(a, n) < level_sum(b, n),
    decreases n,
{
    if t < n - 1 {
        lemma_level_sum_lt(a, b, (n - 1) as nat, t);
    } else {
        lemma_level_sum_le(a, b, (n - 1) as nat);
    }
}

/// The number of tracks of the upgrade at position `i`.
fn track_count_at(i: usize) -> (r: usize)
    requires
        i < UPGRADES_LEN,
    ensures
        r == track_lens(i as nat).len(),
{
    if i == 5 {
        4
    } else if i == 11 {
        2
    } else {
        1
    }
}

/// The number of levels of one track of the upgrade at position `i`.
fn track_len_at(i: usize, t: usize) -> (r: u8)
    requires
        i < UPGRADES_LEN,
        t < track_lens(i as nat).len(),
    ensures
        r == track_lens(i as nat)[t as int],
{
    if i == 4 { 6 }
    else if i == 5 {
        if t == 0 { 7 } else if t == 1 { 6 } else if t == 2 { 5 } else { 4 }
    }
    else if i == 6 { 5 }
    else if i == 7 { 11 }
    else if i == 8 || i == 9 { 6 }
    else if i == 11 { if t == 0 { 15 } else { 11 } }
    else if i == 12 { 7 }
    else if i == 14 { 5 }
    else if i == 18 { 6 }
    else if i == 19 { 7 }
    else if i == 20 { 3 }
    else if i == 22 { 5 }
    else if i == 24 { 4 }
    else if i == 26 { 6 }
    else if i == 29 || i == 32 { 2 }
    else if i == 30 { 3 }
    else { 1 }
}

/// The highest level of the upgrade at position `i`.
fn max_level_at(i: usize) -> (r: u8)
    requires
        i < UPGRADES_LEN,
    ensures
        r == max_level_of(i as nat),
{
    let n = track_count_at(i);
    let mut sum: u8 = 0;
    let mut t: usize = 0;
    while t < n
        invariant
            i < UPGRADES_LEN,
            n == track_lens(i as nat).len(),
            0 <= t <= n,
            sum == sum_first(track_lens(i as nat), t as nat),
            sum <= 26,
        decreases n - t,
    {
        proof {
            reveal_with_fuel(sum_first, 5);
        }
        sum = sum + track_len_at(i, t);
        t = t + 1;
    }
    sum
}

fn group_at(i: usize) -> (r: usize)
    requires
        i < UPGRADES_LEN,
    ensures
        r == group_of(i as nat),
{
    if i <= 3 { 0 }
    else if i <= 7 { 1 }
    else if i <= 9 { 2 }
    else if i == 10 { 1 }
    else if i <= 15 { 2 }
    else if i <= 21 { 3 }
    else if i <= 27 { 4 }
    else if i <= 31 { 5 }
    else { 6 }
}

impl UpgradeId {
    /// The position of the upgrade in the upgrade list.
    pub fn index(self) -> (r: usize)
        ensures
            r == id_index(self),
            r < UPGRADES_LEN,
    {
        match self {
            UpgradeId::UnlockCode => 0,
            UpgradeId::UnlockHud => 1,
            UpgradeId::UnlockMusic => 2,
            UpgradeId::UnlockLevel1 => 3,
            UpgradeId::CompileTime => 4,
            UpgradeId::InstructionExecutionSpeed => 5,
            UpgradeId::CodeLineWidth => 6,
            UpgradeId::CodeLineCount => 7,
            UpgradeId::MaxInstructions => 8,
            UpgradeId::Literals => 9,
            UpgradeId::UnlockLevel2 => 10,
            UpgradeId::BronzePerInstruction => 11,
            UpgradeId::Statements => 12,
            UpgradeId::UnlockReboot => 13,
            UpgradeId::KeepPrestigeUpgrades => 14,
            UpgradeId::UnlockLevel3 => 15,
            UpgradeId::AutoCompile => 16,
            UpgradeId::UnlockSleep => 17,
            UpgradeId::SleepSpeedReset => 18,
            UpgradeId::SilverPerSleepSecond => 19,
            UpgradeId::ResourcesAfterReboot => 20,
            UpgradeId::UnlockLevel4 => 21,
            UpgradeId::AutoRun => 22,
            UpgradeId::UnlockPrint => 23,
            UpgradeId::MinInstructionDuration => 24,
            UpgradeId::KeepCodeOnPrestige => 25,
            UpgradeId::GoldPrintLogNesting => 26,
            UpgradeId::UnlockLevel5 => 27,
            UpgradeId::UnlockBrk => 28,
            UpgradeId::BrkSlowdown => 29,
            UpgradeId::DiamondPerBrk => 30,
            UpgradeId::UnlockLevel6 => 31,
            UpgradeId::AdditiveReboot => 32,
            UpgradeId::WinCondition => 33,
        }
    }

    /// The upgrade at a position of the upgrade list, if there is one.
    pub fn from_index(i: usize) -> (r: Option<UpgradeId>)
        ensures
            i < UPGRADES_LEN ==> r is Some && id_index(r->0) == i,
            i >= UPGRADES_LEN ==> r is None,
    {
        if i < UPGRADES_LEN {
            Some(crate::scenes::id_at(i))
        } else {
            None
        }
    }

    /// The unlock tier the upgrade belongs to.
    pub fn group(self) -> (r: usize)
        ensures
            r == group_of(id_index(self)),
    {
        group_at(self.index())
    }

    /// The number of tracks the upgrade is bought in.
    pub fn count_tracks(self) -> (r: usize)
        ensures
            r == track_lens(id_index(self)).len(),
    {
        track_count_at(self.index())
    }

    /// The number of levels of one track.
    pub fn track_max_level(self, track: usize) -> (r: u8)
        requires
            track < track_lens(id_index(self)).len(),
        ensures
            r == track_lens(id_index(self))[track as int],
    {
        track_len_at(self.index(), track)
    }

    /// The highest level the upgrade can reach.
    pub fn max_level(self) -> (r: u8)
        ensures
            r == max_level_of(id_index(self)),
    {
        max_level_at(self.index())
    }
}

impl Upgrades {
    /// The levels fit the upgrade list.
    pub open spec fn wf(&self) -> bool {
        levels_wf(self@)
    }

    /// All upgrades at level zero.
    pub fn new() -> (r: Upgrades)
        ensures
            r.wf(),
            forall|i: int, t: int| 0 <= i < UPGRADES_LEN && 0 <= t < r@[i].len() ==> r@[i][t] == 0,
    {
        let mut levels: Vec<Vec<u8>> = Vec::new();
        let mut i: usize = 0;
        while i < UPGRADES_LEN
            invariant
                0 <= i <= UPGRADES_LEN,
                levels@.len() == i,
                forall|k: int| 0 <= k < i ==> (#[trigger] levels@[k])@.len() == track_lens(k as nat).len(),
                forall|k: int, t: int| 0 <= k < i && 0 <= t < levels@[k]@.len() ==> levels@[k]@[t] == 0,
            decreases UPGRADES_LEN - i,
        {
            let n = track_count_at(i);
            let mut tracks: Vec<u8> = Vec::new();
            let mut t: usize = 0;
            while t < n
                invariant
                    0 <= t <= n,
                    tracks@.len() == t,
                    forall|j: int| 0 <= j < t ==> tracks@[j] == 0,
                decreases n - t,
            {
                tracks.push(0);
                t = t + 1;
            }
            levels.push(tracks);
            i = i + 1;
        }
        let r = Upgrades { levels };
        proof {
            let v = r@;
            assert forall|k: int| 0 <= k < UPGRADES_LEN implies total_of(#[trigger] v[k]) <= max_level_of(k as nat) by {
                lemma_level_sum_zero(v[k], v[k].len());
            }
        }
        r
    }

    /// The level of one track of an upgrade.
    pub fn track_get_level(&self, id: UpgradeId, track: usize) -> (r: u8)
        requires
            self.wf(),
            track < track_lens(id_index(id)).len(),
        ensures
            r == self@[id_index(id) as int][track as int],
    {
        let i = id.index();
        assert(self@[i as int] == self.levels@[i as int]@);
        self.levels[i][track]
    }

    /// The level of an upgrade: the sum of the levels of its tracks.
    pub fn total_level(&self, id: UpgradeId) -> (r: u8)
        requires
            self.wf(),
        ensures
            r == total_of(self@[id_index(id) as int]),
            r <= max_level_of(id_index(id)),
    {
        self.total_at(id.index())
    }

    /// Buys one level of a track, unless the upgrade is at its highest level.
    pub fn track_level_up(&mut self, id: UpgradeId, track: usize)
        requires
            old(self).wf(),
            track < track_lens(id_index(id)).len(),
        ensures
            final(self).wf(),
            final(self)@ == level_up(old(self)@, id_index(id), track as nat),
    {
        self.level_up_at(id.index(), track);
    }

    fn level_up_at(&mut self, i: usize, track: usize)
        requires
            old(self).wf(),
            i < UPGRADES_LEN,
            track < track_lens(i as nat).len(),
        ensures
            final(self).wf(),
            final(self)@ == level_up(old(self)@, i as nat, track as nat),
    {
        let ghost s = self@[i as int];
        assert(s == self.levels@[i as int]@);
        let total = self.total_at(i);
        let max = max_level_at(i);
        if total < max {
            proof {
                lemma_level_sum_bound(s, s.len(), track as int);
                lemma_level_sum_update(s, s.len(), track as int, (s[track as int] + 1) as u8);
            }
            let v = self.levels[i][track] + 1;
            self.levels[i].set(track, v);
            assert(self@ =~= old(self)@.update(i as int, s.update(track as int, v)));
        }
    }

    fn total_at(&self, i: usize) -> (r: u8)
        requires
            self.wf(),
            i < UPGRADES_LEN,
        ensures
            r == total_of(self@[i as int]),
    {
        let tracks = &self.levels[i];
        let ghost s = tracks@;
        proof {
            lemma_max_level_bound(i as nat);
            assert(self@[i as int] == s);
        }
        let mut sum: u16 = 0;
        let mut t: usize = 0;
        while t < tracks.len()
            invariant
                0 <= t <= s.len(),
                s == tracks@,
                sum == level_sum(s, t as nat),
                level_sum(s, s.len()) <= 26,
            decreases s.len() - t,
        {
            proof {
                lemma_level_sum_le_prefix(s, (t + 1) as nat, s.len());
            }
            sum = sum + tracks[t] as u16;
            t = t + 1;
        }
        sum as u8
    }

    fn get_at(&self, i: usize, t: usize) -> (r: u8)
        requires
            self.wf(),
            i < UPGRADES_LEN,
            t < track_lens(i as nat).len(),
        ensures
            r == self@[i as int][t as int],
    {
        assert(self@[i as int] == self.levels@[i as int]@);
        self.levels[i][t]
    }

    /// Raises the tracks of the upgrade at position `i` to their levels in `src`.
    fn restore_from(&mut self, src: &Upgrades, i: usize)
        requires
            old(self).wf(),
            src.wf(),
            i < UPGRADES_LEN,
            forall|t: int| 0 <= t < old(self)@[i as int].len() ==> old(self)@[i as int][t] <= src@[i as int][t],
        ensures
            final(self).wf(),
            final(self)@ == old(self)@.update(i as int, src@[i as int]),
    {
        let n = track_count_at(i);
        let ghost before = self@;
        let mut t: usize = 0;
        while t < n
            invariant
                self.wf(),
                src.wf(),
                i < UPGRADES_LEN,
                n == track_lens(i as nat).len(),
                0 <= t <= n,
                self@.len() == before.len(),
                forall|k: int| 0 <= k < UPGRADES_LEN && k != i ==> self@[k] == before[k],
                forall|j: int| 0 <= j < t ==> self@[i as int][j] == src@[i as int][j],
                forall|j: int| t <= j < n ==> self@[i as int][j] <= src@[i as int][j],
            decreases n - t,
        {
            let target = src.get_at(i, t);
            while self.get_at(i, t) < target
                invariant
                    self.wf(),
                    src.wf(),
                    i < UPGRADES_LEN,
                    n == track_lens(i as nat).len(),
                    0 <= t < n,
                    target == src@[i as int][t as int],
                    self@.len() == before.len(),
                    forall|k: int| 0 <= k < UPGRADES_LEN && k != i ==> self@[k] == before[k],
                    forall|j: int| 0 <= j < t ==> self@[i as int][j] == src@[i as int][j],
                    forall|j: int| t <= j < n ==> self@[i as int][j] <= src@[i as int][j],
                decreases target - self@[i as int][t as int],
            {
                proof {
                    lemma_level_sum_lt(self@[i as int], src@[i as int], n as nat, t as int);
                }
                self.level_up_at(i, t);
            }
            t = t + 1;
        }
        assert(self@[i as int] =~= src@[i as int]);
        assert(self@ =~= before.update(i as int, src@[i as int]));
    }

    /// The value of an upgrade that is only locked or unlocked: whether it was bought.
    pub fn is_unlocked(&self, id: UpgradeId) -> (r: bool)
        requires
            self.wf(),
            is_switch(id_index(id)),
        ensures
            r == (total_of(self@[id_index(id) as int]) == 1),
    {
        self.total_at(id.index()) == 1
    }

    /// The time a compilation takes, in milliseconds.
    pub fn compile_time_millis(&self) -> (r: u64)
        requires
            self.wf(),
        ensures
            r == compile_time_table()[total_of(self@[4]) as int],
    {
        let table: [u64; 7] = [10_000, 5_000, 4_000, 3_000, 2_000, 1_000, 100];
        assert(table@ =~= compile_time_table());
        let l = self.total_at(4);
        proof { reveal_with_fuel(sum_first, 2); }
        table[l as usize]
    }

    /// The widest line a program may have, in bytes.
    pub fn code_line_width(&self) -> (r: u8)
        requires
            self.wf(),
        ensures
            r == line_width_table()[total_of(self@[6]) as int],
    {
        let table: [u8; 6] = [5, 10, 15, 30, 50, 80];
        assert(table@ =~= line_width_table());
        let l = self.total_at(6);
        proof { reveal_with_fuel(sum_first, 2); }
        table[l as usize]
    }

    /// The most non-blank lines a program may have.
    pub fn code_line_count(&self) -> (r: u8)
        requires
            self.wf(),
        ensures
            r == line_count_table()[total_of(self@[7]) as int],
    {
        let table: [u8; 12] = [1, 2, 4, 5, 6, 7, 8, 10, 15, 20, 30, 40];
        assert(table@ =~= line_count_table());
        let l = self.total_at(7);
        proof { reveal_with_fuel(sum_first, 2); }
        table[l as usize]
    }

    /// The most instructions a run may execute.
    pub fn max_instructions(&self) -> (r: u64)
        requires
            self.wf(),
        ensures
            r == max_instructions_table()[total_of(self@[8]) as int],
    {
        let table: [u64; 7] = [100, 1_000, 10_000, 100_000, 10_000_000, 1_000_000_000, 1_000_000_000_000];
        assert(table@ =~= max_instructions_table());
        let l = self.total_at(8);
        proof { reveal_with_fuel(sum_first, 2); }
        table[l as usize]
    }

    /// Whether string literals are unlocked, and the largest integer literal.
    pub fn literals(&self) -> (r: (bool, u8))
        requires
            self.wf(),
        ensures
            r == literals_table()[total_of(self@[9]) as int],
    {
        let table: [(bool, u8); 7] = [(false, 1), (false, 2), (false, 5), (false, 10), (true, 10), (true, 100), (true, 255)];
        assert(table@ =~= literals_table());
        let l = self.total_at(9);
        proof { reveal_with_fuel(sum_first, 2); }
        table[l as usize]
    }

    /// The highest unlock tier whose upgrades a reboot keeps.
    pub fn keep_prestige_upgrades(&self) -> (r: u8)
        requires
            self.wf(),
        ensures
            r == keep_level(self@),
    {
        let table: [u8; 6] = [0, 1, 2, 3, 4, 6];
        assert(table@ =~= keep_table());
        let l = self.total_at(14);
        proof { reveal_with_fuel(sum_first, 2); }
        table[l as usize]
    }

    /// The statements that programs may use.
    pub fn statements(&self) -> (r: CodeStatementLevels)
        requires
            self.wf(),
        ensures
            r == statements_table()[total_of(self@[12]) as int],
    {
        let table: [CodeStatementLevels; 8] = [
            CodeStatementLevels::NoneUnlocked,
            CodeStatementLevels::SimpleLoops,
            CodeStatementLevels::NestedLoops,
            CodeStatementLevels::Functions,
            CodeStatementLevels::Multiplication,
            CodeStatementLevels::PureFunctions,
            CodeStatementLevels::SingleRecursion,
            CodeStatementLevels::MultiRecursion,
        ];
        assert(table@ =~= statements_table());
        let l = self.total_at(12);
        proof { reveal_with_fuel(sum_first, 2); }
        table[l as usize]
    }

    /// The period of automatic runs in milliseconds, where they are unlocked.
    pub fn auto_run_millis(&self) -> (r: Option<u64>)
        requires
            self.wf(),
        ensures
            r == auto_run_table()[total_of(self@[22]) as int],
    {
        let table: [Option<u64>; 6] = [None, Some(18_000), Some(6_000), Some(2_000), Some(1_000), Some(100)];
        assert(table@ =~= auto_run_table());
        let l = self.total_at(22);
        proof { reveal_with_fuel(sum_first, 2); }
        table[l as usize]
    }

    /// Whether reboots add to the resources, and whether automatic runs reboot.
    pub fn additive_reboot(&self) -> (r: (bool, bool))
        requires
            self.wf(),
        ensures
            r == additive_reboot_table()[total_of(self@[32]) as int],
    {
        let table: [(bool, bool); 3] = [(false, false), (true, false), (true, true)];
        assert(table@ =~= additive_reboot_table());
        let l = self.total_at(32);
        proof { reveal_with_fuel(sum_first, 2); }
        table[l as usize]
    }

    /// The limits that programs must keep.
    pub fn unlock_limits(&self) -> (r: UnlockLimits)
        requires
            self.wf(),
        ensures
            r == limits_of(self@),
    {
        let (strings_allowed, max_int) = self.literals();
        UnlockLimits {
            line_width: self.code_line_width(),
            line_count: self.code_line_count(),
            strings_allowed,
            max_int,
            statements: self.statements(),
        }
    }

    /// The upgrades after a reboot: those of the unlock tiers up to the one that
    /// `keep_prestige_upgrades` names, and the unlocks of the tiers themselves, keep
    /// the level of each of their tracks; all others start again from level zero.
    pub fn prestige_upgrades(&self) -> (r: Upgrades)
        requires
            self.wf(),
        ensures
            r.wf(),
            forall|i: int, t: int| 0 <= i < UPGRADES_LEN && 0 <= t < track_lens(i as nat).len() ==>
                #[trigger] r@[i][t] == if kept_on_prestige(i as nat, keep_level(self@) as nat) { self@[i][t] } else { 0 },
    {
        let keep = self.keep_prestige_upgrades();
        let mut r = Upgrades::new();
        let ghost zero = r@;
        let mut i: usize = 0;
        while i < UPGRADES_LEN
            invariant
                self.wf(),
                r.wf(),
                keep == keep_level(self@),
                0 <= i <= UPGRADES_LEN,
                zero.len() == UPGRADES_LEN,
                forall|k: int, t: int| 0 <= k < UPGRADES_LEN && 0 <= t < zero[k].len() ==> zero[k][t] == 0,
                forall|k: int| 0 <= k < i ==> #[trigger] r@[k] == if group_of(k as nat) <= keep { self@[k] } else { zero[k] },
                forall|k: int| i <= k < UPGRADES_LEN ==> #[trigger] r@[k] == zero[k],
            decreases UPGRADES_LEN - i,
        {
            if group_at(i) <= keep as usize {
                r.restore_from(self, i);
            }
            i = i + 1;
        }
        let ghost mid = r@;
        let unlocks: [usize; 6] = [3, 10, 15, 21, 27, 31];
        let mut j: usize = 0;
        while j < 6
            invariant
                self.wf(),
                r.wf(),
                0 <= j <= 6,
                unlocks@ == seq![3usize, 10, 15, 21, 27, 31],
                keep == keep_level(self@),
                zero.len() == UPGRADES_LEN,
                levels_wf(zero),
                forall|k: int, t: int| 0 <= k < UPGRADES_LEN && 0 <= t < zero[k].len() ==> zero[k][t] == 0,
                forall|k: int| 0 <= k < UPGRADES_LEN ==> #[trigger] mid[k] == if group_of(k as nat) <= keep { self@[k] } else { zero[k] },
                forall|k: int| 0 <= k < UPGRADES_LEN ==> #[trigger] r@[k] == if exists|m: int| 0 <= m < j && unlocks@[m] == k {
                    self@[k]
                } else {
                    mid[k]
                },
            decreases 6 - j,
        {
            let u = unlocks[j];
            r.restore_from(self, u);
            j = j + 1;
        }
        proof {
            assert forall|k: int| 0 <= k < UPGRADES_LEN implies #[trigger] r@[k] == if kept_on_prestige(k as nat, keep_level(self@) as nat) { self@[k] } else { zero[k] } by {
                if is_tier_unlock(k as nat) {
                    if k == 3 { assert(unlocks@[0] == k); }
                    else if k == 10 { assert(unlocks@[1] == k); }
                    else if k == 15 { assert(unlocks@[2] == k); }
                    else if k == 21 { assert(unlocks@[3] == k); }
                    else if k == 27 { assert(unlocks@[4] == k); }
                    else { assert(unlocks@[5] == k); }
                }
            }
        }
        r
    }

    /// Sells one level of a track, if it has any.
    pub fn track_level_down(&mut self, id: UpgradeId, track: usize)
        requires
            old(self).wf(),
            track < track_lens(id_index(id)).len(),
        ensures
            final(self).wf(),
            final(self)@ == level_down(old(self)@, id_index(id), track as nat),
    {
        let i = id.index();
        let ghost s = self@[i as int];
        let v = self.levels[i][track].saturating_sub(1);
        proof {
            lemma_level_sum_update(s, s.len(), track as int, v);
        }
        self.levels[i].set(track, v);
        assert(self@ =~= old(self)@.update(i as int, s.update(track as int, v)));
    }
}

/// Selling a level that was just bought gives back the levels from before the purchase.
pub proof fn lemma_level_down_undoes_level_up(levels: Seq<Seq<u8>>, i: nat, t: nat)
    requires
        levels_wf(levels),
        i < UPGRADES_LEN,
        t < track_lens(i).len(),
        total_of(levels[i as int]) < max_level_of(i),
    ensures
        level_down(level_up(levels, i, t), i, t) == levels,
{
    let s = levels[i as int];
    lemma_max_level_bound(i);
    lemma_level_sum_bound(s, s.len(), t as int);
    let up = level_up(levels, i, t);
    assert(up[i as int][t as int] == s[t as int] + 1);
    assert(up[i as int].update(t as int, s[t as int]) =~= s);
    assert(level_down(up, i, t) =~= levels);
}

/// Buying back a level that was just sold gives back the levels from before the sale.
pub proof fn lemma_level_up_undoes_level_down(levels: Seq<Seq<u8>>, i: nat, t: nat)
    requires
        levels_wf(levels),
        i < UPGRADES_LEN,
        t < track_lens(i).len(),
        levels[i as int][t as int] > 0,
    ensures
        level_up(level_down(levels, i, t), i, t) == levels,
{
    let s = levels[i as int];
    let down = level_down(levels, i, t);
    let v = (s[t as int] - 1) as u8;
    assert(down[i as int] == s.update(t as int, v));
    lemma_level_sum_update(s, s.len(), t as int, v);
    assert(total_of(down[i as int]) < max_level_of(i));
    assert(down[i as int].update(t as int, (v + 1) as u8) =~= s);
    assert(level_up(down, i, t) =~= levels);
}

/// No upgrade has more than 26 levels.
pub proof fn lemma_max_level_bound(i: nat)
    ensures
        max_level_of(i) <= 26,
{
    reveal_with_fuel(sum_first, 5);
}

proof fn lemma_level_sum_le_prefix(s: Seq<u8>, m: nat, n: nat)
    requires
        m <= n <= s.len(),
    ensures
        level_sum(s, m) <= level_sum(s, n),
    decreases n,
{
    if m < n {
        lemma_level_sum_le_prefix(s, m, (n - 1) as nat);
    }
}

} // verus!
