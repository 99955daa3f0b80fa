//! The home terminal: which commands it offers, how it finds the one that was typed,
//! completes a partly typed name, and what the help, docs and reset commands show and
//! do with the keys they are given.
use vstd::prelude::*;
use crate::compilation::str_eq;
use crate::lexer::chars_of;
use crate::scenes::CommandKey;
use crate::unlocks::CodeStatementLevels;
use crate::upgrades::{UpgradeId, Upgrades, limits_of, total_of};
use crate::values::{decimal, decimal_text};

verus! {

/// The commands of the home terminal.
#[derive(Clone, Copy, Debug, PartialEq, Eq, Structural)]
pub enum CommandKind {
    Help,
    Save,
    Reboot,
    Docs,
    Code,
    Compile,
    Run,
    Upgrades,
    Volume,
    Reset,
    Exit,
}

/// The name under which a command is typed.
pub open spec fn command_name(c: CommandKind) -> Seq<char> {
    match c {
        CommandKind::Help => "help"@,
        CommandKind::Save => "save"@,
        CommandKind::Reboot => "reboot"@,
        CommandKind::Docs => "docs"@,
        CommandKind::Code => "code"@,
        CommandKind::Compile => "compile"@,
        CommandKind::Run => "run"@,
        CommandKind::Upgrades => "upgrades"@,
        CommandKind::Volume => "volume"@,
        CommandKind::Reset => "reset"@,
        CommandKind::Exit => "exit"@,
    }
}

/// The line of help text of a command.
pub open spec fn command_help(c: CommandKind) -> Seq<char> {
    match c {
        CommandKind::Help => "Displays this help text"@,
        CommandKind::Save => "Saves the game. Will be loaded automatically on the next startup."@,
        CommandKind::Reboot => "Reset all upgrades but gain additional currency"@,
        CommandKind::Docs => "Explanation of the coding language"@,
        CommandKind::Code => "Opens the code editor to write or modify your program"@,
        CommandKind::Compile => "Compiles the program code to make it executable"@,
        CommandKind::Run => "Runs the program code after compiling"@,
        CommandKind::Upgrades => "Opens the upgrade tree"@,
        CommandKind::Volume => "Control the music volume"@,
        CommandKind::Reset => "Resets the game, removing any save data"@,
        CommandKind::Exit => "Exits the game"@,
    }
}

impl CommandKind {
    /// The name under which the command is typed.
    pub fn name(self) -> (r: &'static str)
        ensures
            r@ == command_name(self),
    {
        match self {
            CommandKind::Help => "help",
            CommandKind::Save => "save",
            CommandKind::Reboot => "reboot",
            CommandKind::Docs => "docs",
            CommandKind::Code => "code",
            CommandKind::Compile => "compile",
            CommandKind::Run => "run",
            CommandKind::Upgrades => "upgrades",
            CommandKind::Volume => "volume",
            CommandKind::Reset => "reset",
            CommandKind::Exit => "exit",
        }
    }

    /// The line of help text of the command.
    pub fn help_description(self) -> (r: &'static str)
        ensures
            r@ == command_help(self),
    {
        match self {
            CommandKind::Help => "Displays this help text",
            CommandKind::Save => "Saves the game. Will be loaded automatically on the next startup.",
            CommandKind::Reboot => "Reset all upgrades but gain additional currency",
            CommandKind::Docs => "Explanation of the coding language",
            CommandKind::Code => "Opens the code editor to write or modify your program",
            CommandKind::Compile => "Compiles the program code to make it executable",
            CommandKind::Run => "Runs the program code after compiling",
            CommandKind::Upgrades => "Opens the upgrade tree",
            CommandKind::Volume => "Control the music volume",
            CommandKind::Reset => "Resets the game, removing any save data",
            CommandKind::Exit => "Exits the game",
        }
    }
}

/// Whether the upgrade at position `i`, one that is only locked or unlocked, was bought.
pub open spec fn bought(levels: Seq<Seq<u8>>, i: int) -> bool {
    total_of(levels[i]) == 1
}

/// The commands on offer, in the order of the help text: the code commands once code is
/// unlocked, `volume` once music is, and `reboot` once rebooting is.
pub open spec fn offered_commands(code: bool, music: bool, reboot: bool) -> Seq<CommandKind> {
    seq![CommandKind::Help, CommandKind::Save]
        + (if reboot { seq![CommandKind::Reboot] } else { Seq::empty() })
        + (if code {
            seq![CommandKind::Docs, CommandKind::Code, CommandKind::Compile, CommandKind::Run]
        } else {
            Seq::empty()
        })
        + seq![CommandKind::Upgrades]
        + (if music { seq![CommandKind::Volume] } else { Seq::empty() })
        + seq![CommandKind::Reset, CommandKind::Exit]
}

/// The commands on offer with the given upgrades.
pub fn command_list(upgrades: &Upgrades) -> (r: Vec<CommandKind>)
    requires
        upgrades.wf(),
    ensures
        r@ == offered_commands(bought(upgrades@, 0), bought(upgrades@, 2), bought(upgrades@, 13)),
{
    let code = upgrades.is_unlocked(UpgradeId::UnlockCode);
    let music = upgrades.is_unlocked(UpgradeId::UnlockMusic);
    let reboot = upgrades.is_unlocked(UpgradeId::UnlockReboot);
    let mut r: Vec<CommandKind> = Vec::new();
    r.push(CommandKind::Help);
    r.push(CommandKind::Save);
    if reboot {
        r.push(CommandKind::Reboot);
    }
    if code {
        r.push(CommandKind::Docs);
        r.push(CommandKind::Code);
        r.push(CommandKind::Compile);
        r.push(CommandKind::Run);
    }
    r.push(CommandKind::Upgrades);
    if music {
        r.push(CommandKind::Volume);
    }
    r.push(CommandKind::Reset);
    r.push(CommandKind::Exit);
    assert(r@ =~= offered_commands(code, music, reboot));
    r
}

/// The commands of `s` whose name is `name`, in order.
pub open spec fn named(s: Seq<CommandKind>, name: Seq<char>) -> Seq<CommandKind>
    decreases s.len(),
{
    if s.len() == 0 {
        Seq::empty()
    } else if command_name(s.last()) == name {
        named(s.drop_last(), name).push(s.last())
    } else {
        named(s.drop_last(), name)
    }
}

/// The command that a typed line names: the one command of that name, where exactly one
/// has it.
pub fn find_command(commands: &Vec<CommandKind>, cmd: &str) -> (r: Option<CommandKind>)
    ensures
        r == (if named(commands@, cmd@).len() == 1 {
            Some(named(commands@, cmd@)[0])
        } else {
            None::<CommandKind>
        }),
{
    let mut count: usize = 0;
    let mut first: Option<CommandKind> = None;
    let mut i: usize = 0;
    while i < commands.len()
        invariant
            0 <= i <= commands.len(),
            count as nat == named(commands@.take(i as int), cmd@).len(),
            count <= i,
            first == (if count > 0 { Some(named(commands@.take(i as int), cmd@)[0]) } else { None::<CommandKind> }),
        decreases commands.len() - i,
    {
        let c = commands[i];
        assert(commands@.take(i + 1).drop_last() =~= commands@.take(i as int));
        assert(commands@.take(i + 1).last() == c);
        if str_eq(c.name(), cmd) {
            if count == 0 {
                first = Some(c);
            }
            count = count + 1;
        }
        i = i + 1;
    }
    assert(commands@.take(commands@.len() as int) =~= commands@);
    if count == 1 { first } else { None }
}

/// No two commands share a name.
proof fn lemma_names_distinct(a: CommandKind, b: CommandKind)
    requires
        a != b,
    ensures
        command_name(a) != command_name(b),
{
    reveal_strlit("help");
    reveal_strlit("save");
    reveal_strlit("reboot");
    reveal_strlit("docs");
    reveal_strlit("code");
    reveal_strlit("compile");
    reveal_strlit("run");
    reveal_strlit("upgrades");
    reveal_strlit("volume");
    reveal_strlit("reset");
    reveal_strlit("exit");
    assert(command_name(a).len() != command_name(b).len() || command_name(a)[0] != command_name(b)[0]
        || command_name(a)[1] != command_name(b)[1] || command_name(a)[2] != command_name(b)[2]);
}

/// In a list where every command occurs once, the commands of a name are the command of
/// that name alone, where the list has it.
proof fn lemma_named_unique(s: Seq<CommandKind>, c: CommandKind)
    requires
        forall|i: int, j: int| 0 <= i < j < s.len() ==> s[i] != s[j],
    ensures
        named(s, command_name(c)) == (if s.contains(c) { seq![c] } else { Seq::<CommandKind>::empty() }),
    decreases s.len(),
{
    if s.len() > 0 {
        let t = s.drop_last();
        lemma_named_unique(t, c);
        if s.last() == c {
            assert(!t.contains(c)) by {
                if t.contains(c) {
                    let i = choose|i: int| 0 <= i < t.len() && t[i] == c;
                    assert(s[i] == s[s.len() - 1]);
                }
            }
        } else {
            lemma_names_distinct(s.last(), c);
            assert(s.contains(c) == t.contains(c)) by {
                if s.contains(c) {
                    let i = choose|i: int| 0 <= i < s.len() && s[i] == c;
                    assert(t[i] == c);
                }
                if t.contains(c) {
                    let i = choose|i: int| 0 <= i < t.len() && t[i] == c;
                    assert(s[i] == c);
                }
            }
        }
    }
}

/// Every command on offer is found by its name, whatever has been unlocked.
pub proof fn lemma_offered_commands_found(code: bool, music: bool, reboot: bool, c: CommandKind)
    requires
        offered_commands(code, music, reboot).contains(c),
    ensures
        named(offered_commands(code, music, reboot), command_name(c)) == seq![c],
{
    let s = offered_commands(code, music, reboot);
    assert forall|i: int, j: int| 0 <= i < j < s.len() implies s[i] != s[j] by {
        assert(s[i] != s[j]);
    }
    lemma_named_unique(s, c);
}

/// The values of a list of strings.
pub open spec fn texts(v: Seq<String>) -> Seq<Seq<char>> {
    v.map_values(|x: String| x@)
}

/// The line of the help text for one command.
pub open spec fn help_line(c: CommandKind) -> Seq<char> {
    "  "@ + command_name(c) + "\t - "@ + command_help(c)
}

/// The help text: a heading, then one line per command.
pub open spec fn help_text(commands: Seq<CommandKind>) -> Seq<Seq<char>> {
    seq!["List of available commands:"@] + commands.map_values(|c: CommandKind| help_line(c))
}

/// The lines that the help command shows.
pub fn help_lines(commands: &Vec<CommandKind>) -> (r: Vec<String>)
    ensures
        texts(r@) == help_text(commands@),
{
    let mut r: Vec<String> = Vec::new();
    r.push(String::from_str("List of available commands:"));
    let mut i: usize = 0;
    while i < commands.len()
        invariant
            0 <= i <= commands.len(),
            texts(r@) == seq!["List of available commands:"@] + commands@.take(i as int).map_values(
                |c: CommandKind| help_line(c),
            ),
        decreases commands.len() - i,
    {
        let c = commands[i];
        let line = String::from_str("  ").concat(c.name()).concat("\t - ").concat(c.help_description());
        let ghost before = r@;
        r.push(line);
        assert(commands@.take(i + 1).map_values(|c: CommandKind| help_line(c)) =~= commands@.take(
            i as int,
        ).map_values(|c: CommandKind| help_line(c)).push(help_line(c)));
        assert(texts(r@) =~= texts(before).push(line@));
        i = i + 1;
    }
    assert(commands@.take(commands@.len() as int) =~= commands@);
    r
}

/// What the terminal answers to a line that names no command.
pub open spec fn unknown_text(cmd: Seq<char>) -> Seq<char> {
    "Unknown command '"@ + cmd + "'. For a list of available commands, try 'help'."@
}

/// The answer to a line that names no command.
pub fn unknown_command_text(cmd: &str) -> (r: String)
    ensures
        r@ == unknown_text(cmd@),
{
    String::from_str("Unknown command '").concat(cmd).concat("'. For a list of available commands, try 'help'.")
}

/// Whether `prefix` begins `s`.
pub fn starts_with(s: &str, prefix: &str) -> (r: bool)
    ensures
        r == prefix@.is_prefix_of(s@),
{
    let a = chars_of(s);
    let b = chars_of(prefix);
    if b.len() > a.len() {
        return false;
    }
    let mut i: usize = 0;
    while i < b.len()
        invariant
            a@ == s@,
            b@ == prefix@,
            b.len() <= a.len(),
            0 <= i <= b.len(),
            forall|j: int| 0 <= j < i ==> a@[j] == b@[j],
        decreases b.len() - i,
    {
        if a[i] != b[i] {
            return false;
        }
        i = i + 1;
    }
    assert(prefix@ =~= s@.subrange(0, prefix@.len() as int));
    true
}

/// The names of the commands of `s` that `prefix` begins, in order.
pub open spec fn completions(s: Seq<CommandKind>, prefix: Seq<char>) -> Seq<Seq<char>>
    decreases s.len(),
{
    if s.len() == 0 {
        Seq::empty()
    } else if prefix.is_prefix_of(command_name(s.last())) {
        completions(s.drop_last(), prefix).push(command_name(s.last()))
    } else {
        completions(s.drop_last(), prefix)
    }
}

/// Every completion of a text is the name of a command of the list, and the text begins it.
pub proof fn lemma_completions_sound(s: Seq<CommandKind>, prefix: Seq<char>, k: int)
    requires
        0 <= k < completions(s, prefix).len(),
    ensures
        prefix.is_prefix_of(completions(s, prefix)[k]),
        exists|i: int| 0 <= i < s.len() && command_name(#[trigger] s[i]) == completions(s, prefix)[k],
    decreases s.len(),
{
    let t = s.drop_last();
    let rest = completions(t, prefix);
    if k < rest.len() {
        lemma_completions_sound(t, prefix, k);
        let i = choose|i: int| 0 <= i < t.len() && command_name(#[trigger] t[i]) == rest[k];
        assert(s[i] == t[i]);
    } else {
        assert(command_name(s[s.len() - 1]) == completions(s, prefix)[k]);
    }
}

/// The line being typed: its text, the cursor, and, while the player cycles through the
/// completions of a name, the text that was completed and the next completion to show.
#[derive(Debug)]
pub struct CommandLine {
    pub input: String,
    pub cursor: usize,
    pub autocomplete_cycle: Option<(String, usize)>,
}

/// The completion cycle with its text as characters.
pub open spec fn cycle_view(c: Option<(String, usize)>) -> Option<(Seq<char>, usize)> {
    match c {
        Some((p, i)) => Some((p@, i)),
        None => None,
    }
}

/// What is completed and where the cycle stands: the cycle that is under way, or else a
/// new one on the text typed.
pub open spec fn cycle_start(input: Seq<char>, cycle: Option<(Seq<char>, usize)>) -> (Seq<char>, usize) {
    match cycle {
        Some(x) => x,
        None => (input, 0usize),
    }
}

/// The completion that a cycle under way points at is still one of the completions.
pub open spec fn cycle_in_range(input: Seq<char>, cycle: Option<(Seq<char>, usize)>, commands: Seq<CommandKind>) -> bool {
    let (p, i) = cycle_start(input, cycle);
    input.len() == 0 || completions(commands, p).len() == 0 || i < completions(commands, p).len()
}

/// The line after the completion key: an empty line stays; otherwise the next completion
/// of the text, if there is one, replaces the line, with the cursor at its end.
pub open spec fn complete_line(
    input: Seq<char>,
    cursor: usize,
    cycle: Option<(Seq<char>, usize)>,
    commands: Seq<CommandKind>,
) -> (Seq<char>, int, Option<(Seq<char>, usize)>) {
    if input.len() == 0 {
        (input, cursor as int, cycle)
    } else {
        let (p, i) = cycle_start(input, cycle);
        let cands = completions(commands, p);
        if cands.len() == 0 {
            (input, cursor as int, Some((p, i)))
        } else {
            (cands[i as int], cands[i as int].len() as int, Some((p, ((i + 1) % (cands.len() as int)) as usize)))
        }
    }
}

impl CommandLine {
    /// An empty line.
    pub fn new() -> (r: Self)
        ensures
            r.input@ == Seq::<char>::empty(),
            r.cursor == 0,
            r.autocomplete_cycle is None,
    {
        CommandLine { input: String::new(), cursor: 0, autocomplete_cycle: None }
    }

    /// Completes the line to the next command name that the typed text begins.
    pub fn autocomplete(&mut self, commands: &Vec<CommandKind>)
        requires
            cycle_in_range(old(self).input@, cycle_view(old(self).autocomplete_cycle), commands@),
        ensures
            (final(self).input@, final(self).cursor as int, cycle_view(final(self).autocomplete_cycle))
                == complete_line(old(self).input@, old(self).cursor, cycle_view(old(self).autocomplete_cycle), commands@),
    {
        if self.input.as_str().unicode_len() == 0 {
            return;
        }
        let (prefix, cycle) = match &self.autocomplete_cycle {
            Some((p, c)) => (p.clone(), *c),
            None => (self.input.clone(), 0usize),
        };
        let mut cands: Vec<&'static str> = Vec::new();
        let mut i: usize = 0;
        while i < commands.len()
            invariant
                0 <= i <= commands.len(),
                cands@.map_values(|x: &'static str| x@) == completions(commands@.take(i as int), prefix@),
            decreases commands.len() - i,
        {
            let c = commands[i];
            assert(commands@.take(i + 1).drop_last() =~= commands@.take(i as int));
            assert(commands@.take(i + 1).last() == c);
            let name = c.name();
            if starts_with(name, prefix.as_str()) {
                let ghost before = cands@;
                cands.push(name);
                assert(cands@.map_values(|x: &'static str| x@) =~= before.map_values(|x: &'static str| x@).push(name@));
            }
            i = i + 1;
        }
        assert(commands@.take(commands@.len() as int) =~= commands@);
        if cands.len() == 0 {
            self.autocomplete_cycle = Some((prefix, cycle));
            return;
        }
        let chosen = cands[cycle];
        assert(chosen@ == cands@.map_values(|x: &'static str| x@)[cycle as int]);
        self.input = String::from_str(chosen);
        self.cursor = chosen.unicode_len();
        self.autocomplete_cycle = Some((prefix, (cycle + 1) % cands.len()));
    }

    /// Answers a key press: the completion key completes, any other key ends a cycle of
    /// completions.
    pub fn key_pressed(&mut self, key: CommandKey, commands: &Vec<CommandKind>)
        requires
            key == CommandKey::Tab ==> cycle_in_range(old(self).input@, cycle_view(old(self).autocomplete_cycle), commands@),
        ensures
            key == CommandKey::Tab ==> (final(self).input@, final(self).cursor as int, cycle_view(final(self).autocomplete_cycle))
                == complete_line(old(self).input@, old(self).cursor, cycle_view(old(self).autocomplete_cycle), commands@),
            key != CommandKey::Tab ==> final(self).input@ == old(self).input@ && final(self).cursor == old(self).cursor
                && final(self).autocomplete_cycle is None,
    {
        if key == CommandKey::Tab {
            self.autocomplete(commands);
        } else {
            self.autocomplete_cycle = None;
        }
    }
}

/// The state of the reset command.
#[derive(Clone, Copy, Debug, PartialEq, Eq, Structural)]
pub enum ResetState {
    Asking,
    Confirmed,
    Cancelled,
}

/// The reset command.
#[derive(Clone, Copy, Debug, PartialEq, Eq, Structural)]
pub struct ResetCmd {
    pub state: ResetState,
}

/// What the reset command does with a key: the new state, and whether the saved game
/// must be erased now.
pub open spec fn reset_key(state: ResetState, key: CommandKey) -> (ResetState, bool) {
    if state != ResetState::Asking {
        (state, false)
    } else {
        match key {
            CommandKey::Char(c) => if c == 'y' || c == 'Y' {
                (ResetState::Confirmed, true)
            } else if c == 'n' || c == 'N' {
                (ResetState::Cancelled, false)
            } else {
                (state, false)
            },
            CommandKey::Esc | CommandKey::Enter => (ResetState::Cancelled, false),
            _ => (state, false),
        }
    }
}

/// The text of the reset command.
pub open spec fn reset_text(state: ResetState) -> Seq<char> {
    match state {
        ResetState::Asking => "Reset all progress? [y/N]"@,
        ResetState::Confirmed => "Rebooting..."@,
        ResetState::Cancelled => "Reset cancelled."@,
    }
}

impl ResetCmd {
    /// The command as it starts: asking for confirmation.
    pub fn new() -> (r: Self)
        ensures
            r.state == ResetState::Asking,
    {
        ResetCmd { state: ResetState::Asking }
    }

    /// Answers a key; returns whether the saved game must be erased now.
    pub fn handle_key(&mut self, key: CommandKey) -> (erase: bool)
        ensures
            (final(self).state, erase) == reset_key(old(self).state, key),
    {
        if self.state != ResetState::Asking {
            return false;
        }
        match key {
            CommandKey::Char(c) => {
                if c == 'y' || c == 'Y' {
                    self.state = ResetState::Confirmed;
                    true
                } else if c == 'n' || c == 'N' {
                    self.state = ResetState::Cancelled;
                    false
                } else {
                    false
                }
            },
            CommandKey::Esc | CommandKey::Enter => {
                self.state = ResetState::Cancelled;
                false
            },
            _ => false,
        }
    }

    /// The command has ended without a reset.
    pub fn is_done(&self) -> (r: bool)
        ensures
            r == (self.state == ResetState::Cancelled),
    {
        self.state == ResetState::Cancelled
    }

    /// The game must switch to the reboot scene: the reset was confirmed.
    pub fn switches_to_reboot(&self) -> (r: bool)
        ensures
            r == (self.state == ResetState::Confirmed),
    {
        self.state == ResetState::Confirmed
    }

    /// The text the command shows.
    pub fn text(&self) -> (r: &'static str)
        ensures
            r@ == reset_text(self.state),
    {
        match self.state {
            ResetState::Asking => "Reset all progress? [y/N]",
            ResetState::Confirmed => "Rebooting...",
            ResetState::Cancelled => "Reset cancelled.",
        }
    }
}

/// Loops may be written at this statement level.
pub open spec fn allows_loops(s: CodeStatementLevels) -> bool {
    s != CodeStatementLevels::NoneUnlocked
}

/// Loops may be nested at this statement level.
pub open spec fn allows_nested_loops(s: CodeStatementLevels) -> bool {
    s != CodeStatementLevels::NoneUnlocked && s != CodeStatementLevels::SimpleLoops
}

/// Functions may be written at this statement level.
pub open spec fn allows_functions(s: CodeStatementLevels) -> bool {
    s == CodeStatementLevels::Functions || s == CodeStatementLevels::PureFunctions
        || s == CodeStatementLevels::SingleRecursion || s == CodeStatementLevels::MultiRecursion
}

/// Pure functions may be written at this statement level.
pub open spec fn allows_pure_functions(s: CodeStatementLevels) -> bool {
    s == CodeStatementLevels::PureFunctions || s == CodeStatementLevels::SingleRecursion
        || s == CodeStatementLevels::MultiRecursion
}

/// Multiplication and division may be written at this statement level.
pub open spec fn allows_multiplication(s: CodeStatementLevels) -> bool {
    s == CodeStatementLevels::Multiplication || s == CodeStatementLevels::PureFunctions
        || s == CodeStatementLevels::SingleRecursion || s == CodeStatementLevels::MultiRecursion
}

/// The first part of the docs: syntax, variables, types, operators and conditionals.
pub open spec fn docs_basics(strings_allowed: bool, max_int: u8, mult: bool) -> Seq<Seq<char>> {
    seq![
        "NotPython is a small programming language."@,
        ""@,
        "SYNTAX RULES"@,
        "  Simple statements end with ;"@,
        "  Block headers (if, loop, def) end with :"@,
        "  Blocks close with end"@,
        ""@,
        "VARIABLES"@,
        "  x := 5;         declare"@,
        "  x = 10;         reassign"@,
        "  a[0]            index into a list or dict"@,
        ""@,
        "TYPES"@,
        "  -"@ + decimal(max_int as nat) + " to "@ + decimal(max_int as nat) + "       integer"@,
        "  3.14  .5        float"@
    ] + (if strings_allowed { seq!["  \"hello\"         string"@] } else { Seq::empty() }) + seq![
        "  True  False     boolean"@,
        "  None            null"@,
        "  [1, 2, 3]       list"@,
        "  {\"k\": \"v\"}      dict"@,
        ""@,
        "OPERATORS"@,
        if mult { "  + - * / %         arithmetic"@ } else { "  + - %             arithmetic"@ },
        "  == != < > <= >=   comparison"@,
        "  and  or  not      boolean"@,
        "  in                membership test"@,
        ""@,
        "CONDITIONALS"@,
        "  if x > 0:"@,
        "    pass;"@,
        "  elif x == 0:"@,
        "    pass;"@,
        "  else:"@,
        "    pass;"@,
        "  end"@,
        ""@
    ]
}

/// The part of the docs on loops, where loops are allowed.
pub open spec fn docs_loops(s: CodeStatementLevels) -> Seq<Seq<char>> {
    if allows_loops(s) {
        seq![
            "LOOPS"@,
            "  loop:"@,
            "    break;"@,
            "  end"@,
            "  break and continue are supported inside loops"@,
            if allows_nested_loops(s) { "  loops may be nested"@ } else { "  loops cannot be nested yet"@ },
            ""@
        ]
    } else {
        Seq::empty()
    }
}

/// The part of the docs on functions, where functions are allowed.
pub open spec fn docs_functions(s: CodeStatementLevels) -> Seq<Seq<char>> {
    if allows_functions(s) {
        seq![
            "FUNCTIONS"@,
            "  def add(a, b):"@,
            "    return a + b;"@,
            "  end"@,
            "  return; with no value returns None"@
        ] + (if allows_pure_functions(s) {
            seq![
                ""@,
                "MODIFIER: pure"@,
                "  def pure add(a, b):"@,
                "    return a + b;"@,
                "  end"@,
                "  Caches the result per input for faster compile and run times."@,
                "  May only access its own local variables, not outer-scope ones."@
            ]
        } else {
            Seq::empty()
        }) + seq![
            ""@,
            if s == CodeStatementLevels::SingleRecursion {
                "  functions may call themselves once (single recursion)"@
            } else if s == CodeStatementLevels::MultiRecursion {
                "  functions may recurse freely"@
            } else {
                "  functions cannot call themselves yet"@
            }
        ]
    } else {
        Seq::empty()
    }
}

/// The part of the docs on the predefined functions that are unlocked.
pub open spec fn docs_builtins(print: bool, sleep: bool, brk: bool) -> Seq<Seq<char>> {
    (if sleep {
        seq![
            ""@,
            "BUILT-IN: sleep"@,
            "  sleep(seconds)"@,
            "  Pauses execution for the given duration."@,
            "  Earns silver proportional to the sleep time."@
        ]
    } else {
        Seq::empty()
    }) + (if print {
        seq![
            ""@,
            "BUILT-IN: print"@,
            "  print(value)"@,
            "  Converts value to a string and displays it."@,
            "  Earns gold proportional to the number of characters."@
        ]
    } else {
        Seq::empty()
    }) + (if brk {
        seq![
            ""@,
            "BUILT-IN: brk"@,
            "  brk()"@,
            "  Triggers a breakpoint, slowing down execution."@,
            "  Earns diamond each time a breakpoint is hit."@
        ]
    } else {
        Seq::empty()
    })
}

/// The docs of the language as far as it is unlocked.
pub open spec fn docs_text(
    print: bool,
    sleep: bool,
    brk: bool,
    statements: CodeStatementLevels,
    strings_allowed: bool,
    max_int: u8,
) -> Seq<Seq<char>> {
    docs_basics(strings_allowed, max_int, allows_multiplication(statements)) + docs_loops(statements)
        + docs_functions(statements) + docs_builtins(print, sleep, brk)
}

fn push_line(lines: &mut Vec<String>, s: &str)
    ensures
        texts(final(lines)@) == texts(old(lines)@).push(s@),
{
    lines.push(String::from_str(s));
    assert(texts(lines@) =~= texts(old(lines)@).push(s@));
}

fn push_docs_basics(lines: &mut Vec<String>, strings_allowed: bool, max_int: u8, mult: bool)
    ensures
        texts(final(lines)@) == texts(old(lines)@) + docs_basics(strings_allowed, max_int, mult),
{
    let ghost start = texts(lines@);
    push_line(lines, "NotPython is a small programming language.");
    push_line(lines, "");
    push_line(lines, "SYNTAX RULES");
    push_line(lines, "  Simple statements end with ;");
    push_line(lines, "  Block headers (if, loop, def) end with :");
    push_line(lines, "  Blocks close with end");
    push_line(lines, "");
    push_line(lines, "VARIABLES");
    push_line(lines, "  x := 5;         declare");
    push_line(lines, "  x = 10;         reassign");
    push_line(lines, "  a[0]            index into a list or dict");
    push_line(lines, "");
    push_line(lines, "TYPES");
    let n = decimal_text(max_int as u64);
    let range = String::from_str("  -").concat(n.as_str()).concat(" to ").concat(n.as_str()).concat("       integer");
    push_line(lines, range.as_str());
    push_line(lines, "  3.14  .5        float");
    let ghost mid = texts(lines@);
    if strings_allowed {
        push_line(lines, "  \"hello\"         string");
    }
    let ghost mid2 = texts(lines@);
    push_line(lines, "  True  False     boolean");
    push_line(lines, "  None            null");
    push_line(lines, "  [1, 2, 3]       list");
    push_line(lines, "  {\"k\": \"v\"}      dict");
    push_line(lines, "");
    push_line(lines, "OPERATORS");
    if mult {
        push_line(lines, "  + - * / %         arithmetic");
    } else {
        push_line(lines, "  + - %             arithmetic");
    }
    push_line(lines, "  == != < > <= >=   comparison");
    push_line(lines, "  and  or  not      boolean");
    push_line(lines, "  in                membership test");
    push_line(lines, "");
    push_line(lines, "CONDITIONALS");
    push_line(lines, "  if x > 0:");
    push_line(lines, "    pass;");
    push_line(lines, "  elif x == 0:");
    push_line(lines, "    pass;");
    push_line(lines, "  else:");
    push_line(lines, "    pass;");
    push_line(lines, "  end");
    push_line(lines, "");
    assert(texts(lines@) =~= start + docs_basics(strings_allowed, max_int, mult));
}

fn push_docs_loops(lines: &mut Vec<String>, s: CodeStatementLevels)
    ensures
        texts(final(lines)@) == texts(old(lines)@) + docs_loops(s),
{
    let ghost start = texts(lines@);
    if s != CodeStatementLevels::NoneUnlocked {
        push_line(lines, "LOOPS");
        push_line(lines, "  loop:");
        push_line(lines, "    break;");
        push_line(lines, "  end");
        push_line(lines, "  break and continue are supported inside loops");
        if s != CodeStatementLevels::SimpleLoops {
            push_line(lines, "  loops may be nested");
        } else {
            push_line(lines, "  loops cannot be nested yet");
        }
        push_line(lines, "");
    }
    assert(texts(lines@) =~= start + docs_loops(s));
}

fn push_docs_functions(lines: &mut Vec<String>, s: CodeStatementLevels)
    ensures
        texts(final(lines)@) == texts(old(lines)@) + docs_functions(s),
{
    let ghost start = texts(lines@);
    let functions = s == CodeStatementLevels::Functions || s == CodeStatementLevels::PureFunctions
        || s == CodeStatementLevels::SingleRecursion || s == CodeStatementLevels::MultiRecursion;
    if functions {
        push_line(lines, "FUNCTIONS");
        push_line(lines, "  def add(a, b):");
        push_line(lines, "    return a + b;");
        push_line(lines, "  end");
        push_line(lines, "  return; with no value returns None");
        if s != CodeStatementLevels::Functions {
            push_line(lines, "");
            push_line(lines, "MODIFIER: pure");
            push_line(lines, "  def pure add(a, b):");
            push_line(lines, "    return a + b;");
            push_line(lines, "  end");
            push_line(lines, "  Caches the result per input for faster compile and run times.");
            push_line(lines, "  May only access its own local variables, not outer-scope ones.");
        }
        push_line(lines, "");
        if s == CodeStatementLevels::SingleRecursion {
            push_line(lines, "  functions may call themselves once (single recursion)");
        } else if s == CodeStatementLevels::MultiRecursion {
            push_line(lines, "  functions may recurse freely");
        } else {
            push_line(lines, "  functions cannot call themselves yet");
        }
    }
    assert(texts(lines@) =~= start + docs_functions(s));
}

fn push_docs_builtins(lines: &mut Vec<String>, print: bool, sleep: bool, brk: bool)
    ensures
        texts(final(lines)@) == texts(old(lines)@) + docs_builtins(print, sleep, brk),
{
    let ghost start = texts(lines@);
    if sleep {
        push_line(lines, "");
        push_line(lines, "BUILT-IN: sleep");
        push_line(lines, "  sleep(seconds)");
        push_line(lines, "  Pauses execution for the given duration.");
        push_line(lines, "  Earns silver proportional to the sleep time.");
    }
    let ghost a = texts(lines@);
    if print {
        push_line(lines, "");
        push_line(lines, "BUILT-IN: print");
        push_line(lines, "  print(value)");
        push_line(lines, "  Converts value to a string and displays it.");
        push_line(lines, "  Earns gold proportional to the number of characters.");
    }
    let ghost b = texts(lines@);
    if brk {
        push_line(lines, "");
        push_line(lines, "BUILT-IN: brk");
        push_line(lines, "  brk()");
        push_line(lines, "  Triggers a breakpoint, slowing down execution.");
        push_line(lines, "  Earns diamond each time a breakpoint is hit.");
    }
    assert(texts(lines@) =~= start + docs_builtins(print, sleep, brk));
}

/// The lines of the docs command: the language as far as it is unlocked.
pub fn docs_lines(
    print: bool,
    sleep: bool,
    brk: bool,
    statements: CodeStatementLevels,
    strings_allowed: bool,
    max_int: u8,
) -> (r: Vec<String>)
    ensures
        texts(r@) == docs_text(print, sleep, brk, statements, strings_allowed, max_int),
{
    let mut lines: Vec<String> = Vec::new();
    let mult = statements == CodeStatementLevels::Multiplication || statements == CodeStatementLevels::PureFunctions
        || statements == CodeStatementLevels::SingleRecursion || statements == CodeStatementLevels::MultiRecursion;
    push_docs_basics(&mut lines, strings_allowed, max_int, mult);
    push_docs_loops(&mut lines, statements);
    push_docs_functions(&mut lines, statements);
    push_docs_builtins(&mut lines, print, sleep, brk);
    assert(texts(lines@) =~= docs_text(print, sleep, brk, statements, strings_allowed, max_int));
    lines
}

/// The docs of the language with the given upgrades.
pub open spec fn docs_for(levels: Seq<Seq<u8>>) -> Seq<Seq<char>> {
    docs_text(
        bought(levels, 23),
        bought(levels, 17),
        bought(levels, 28),
        limits_of(levels).statements,
        limits_of(levels).strings_allowed,
        limits_of(levels).max_int,
    )
}

/// The docs command: its lines, how far they are scrolled, whether it has ended, and the
/// height of the terminal it was opened in.
#[derive(Debug)]
pub struct DocsView {
    pub lines: Vec<String>,
    pub scroll_y: u16,
    pub exit: bool,
    pub height: u16,
}

/// What the docs command does with a key that was pressed, or held down where `repeated`:
/// the new scroll position, and whether the command ends.
pub open spec fn docs_key(scroll_y: u16, len: nat, key: CommandKey, pressed: bool, repeated: bool) -> (u16, bool) {
    match key {
        CommandKey::Enter | CommandKey::Esc => (scroll_y, pressed),
        CommandKey::Up => if pressed || repeated {
            (if scroll_y == 0 { 0u16 } else { (scroll_y - 1) as u16 }, false)
        } else {
            (scroll_y, false)
        },
        CommandKey::Down => if pressed || repeated {
            (if scroll_y + 1 <= len { (scroll_y + 1) as u16 } else { len as u16 }, false)
        } else {
            (scroll_y, false)
        },
        _ => (scroll_y, false),
    }
}

/// The scroll position after it is pulled back so that an area of `area_height` lines
/// does not reach past the last line, where it can.
pub open spec fn clipped_scroll(scroll_y: u16, len: nat, area_height: u16) -> u16 {
    if scroll_y + area_height <= len {
        scroll_y
    } else if area_height <= len {
        (len - area_height) as u16
    } else {
        0u16
    }
}

impl DocsView {
    /// The view is well formed: the scroll position stays within the lines, whose number
    /// fits the terminal's coordinates.
    pub open spec fn wf(&self) -> bool {
        self.lines@.len() < 65535 && self.scroll_y <= self.lines@.len()
    }

    /// The docs command as it starts, for the given upgrades, at the top of the docs.
    pub fn new(height: u16, upgrades: &Upgrades) -> (r: Self)
        requires
            upgrades.wf(),
        ensures
            r.wf(),
            texts(r.lines@) == docs_for(upgrades@),
            r.scroll_y == 0,
            !r.exit,
            r.height == height,
    {
        let print = upgrades.is_unlocked(UpgradeId::UnlockPrint);
        let sleep = upgrades.is_unlocked(UpgradeId::UnlockSleep);
        let brk = upgrades.is_unlocked(UpgradeId::UnlockBrk);
        let limits = upgrades.unlock_limits();
        let lines = docs_lines(print, sleep, brk, limits.statements, limits.strings_allowed, limits.max_int);
        proof {
            lemma_docs_text_short(print, sleep, brk, limits.statements, limits.strings_allowed, limits.max_int);
        }
        DocsView { lines, scroll_y: 0, exit: false, height }
    }

    /// Answers a key that was pressed, or held down where `repeated`.
    pub fn handle_key(&mut self, key: CommandKey, pressed: bool, repeated: bool)
        requires
            old(self).wf(),
        ensures
            final(self).wf(),
            final(self).lines@ == old(self).lines@,
            final(self).height == old(self).height,
            (final(self).scroll_y, final(self).exit) == (
                docs_key(old(self).scroll_y, old(self).lines@.len(), key, pressed, repeated).0,
                old(self).exit || docs_key(old(self).scroll_y, old(self).lines@.len(), key, pressed, repeated).1,
            ),
    {
        let len = self.lines.len() as u16;
        match key {
            CommandKey::Enter | CommandKey::Esc => {
                if pressed {
                    self.exit = true;
                }
            },
            CommandKey::Up => {
                if pressed || repeated {
                    self.scroll_y = self.scroll_y.saturating_sub(1);
                }
            },
            CommandKey::Down => {
                if pressed || repeated {
                    let next = self.scroll_y + 1;
                    self.scroll_y = if next <= len { next } else { len };
                }
            },
            _ => {},
        }
    }

    /// The command has ended.
    pub fn is_done(&self) -> (r: bool)
        ensures
            r == self.exit,
    {
        self.exit
    }

    /// The number of terminal lines the command takes: one less than the lines shown,
    /// which are at most the terminal's height.
    pub fn height(&self) -> (r: u16)
        requires
            self.wf(),
            self.height > 0,
            self.lines@.len() > 0,
        ensures
            r == (if self.height <= self.lines@.len() { self.height as int } else { self.lines@.len() as int }) - 1,
    {
        let len = self.lines.len() as u16;
        let shown = if self.height <= len { self.height } else { len };
        shown - 1
    }

    /// Pulls the scroll position back so that an area of `area_height` lines does not
    /// reach past the last line, and gives the lines that the area shows.
    pub fn visible_lines(&mut self, area_height: u16) -> (r: Vec<String>)
        requires
            old(self).wf(),
            old(self).scroll_y + area_height <= u16::MAX,
            area_height <= old(self).lines@.len(),
        ensures
            final(self).wf(),
            final(self).lines@ == old(self).lines@,
            final(self).exit == old(self).exit,
            final(self).height == old(self).height,
            final(self).scroll_y == clipped_scroll(old(self).scroll_y, old(self).lines@.len(), area_height),
            texts(r@) == texts(old(self).lines@).subrange(
                final(self).scroll_y as int,
                final(self).scroll_y + area_height,
            ),
    {
        let len = self.lines.len() as u16;
        while self.scroll_y + area_height > len && self.scroll_y > 0
            invariant
                self.wf(),
                self.lines@ == old(self).lines@,
                self.exit == old(self).exit,
                self.height == old(self).height,
                len == self.lines@.len(),
                area_height <= len,
                self.scroll_y <= old(self).scroll_y,
                old(self).scroll_y + area_height <= u16::MAX,
                self.scroll_y + area_height > len ==> self.scroll_y + area_height <= old(self).scroll_y + area_height,
                clipped_scroll(self.scroll_y, len as nat, area_height) == clipped_scroll(old(self).scroll_y, len as nat, area_height),
            decreases self.scroll_y,
        {
            self.scroll_y = self.scroll_y - 1;
        }
        let y = self.scroll_y as usize;
        let end = y + area_height as usize;
        let mut r: Vec<String> = Vec::new();
        let mut i: usize = y;
        while i < end
            invariant
                y <= i <= end,
                end <= self.lines@.len(),
                texts(r@) == texts(self.lines@).subrange(y as int, i as int),
            decreases end - i,
        {
            let ghost before = r@;
            let line = self.lines[i].clone();
            r.push(line);
            assert(r@ =~= before.push(self.lines@[i as int]));
            assert(texts(r@) =~= texts(before).push(self.lines@[i as int]@));
            assert(texts(r@) =~= texts(self.lines@).subrange(y as int, i + 1));
            i = i + 1;
        }
        r
    }
}

/// The docs never reach the number of lines past which scrolling would wrap.
proof fn lemma_docs_text_short(
    print: bool,
    sleep: bool,
    brk: bool,
    statements: CodeStatementLevels,
    strings_allowed: bool,
    max_int: u8,
)
    ensures
        docs_text(print, sleep, brk, statements, strings_allowed, max_int).len() < 100,
{
}

} // verus!
