//! The checks on commands that a web-controls client runs through its
//! key bindings: only a whitelist of commands on the client's own session,
//! nested command blocks included; and which commands wait on a prompt or
//! open output for the attached client.

use vstd::prelude::*;
use vstd::utf8::encode_utf8;

use crate::ansi::str_eq;
use crate::bytes::{contains_bytes, find_bytes, has_prefix, starts_with};

verus! {

broadcast use vstd::utf8::group_utf8_lib;

/// One argument of a parsed command: a word, or a block of commands.
#[derive(Debug)]
pub enum CommandArgument {
    String(String),
    Commands(Vec<ParsedCommand>),
}

/// A parsed command: its name and arguments.
#[derive(Debug)]
pub struct ParsedCommand {
    pub name: String,
    pub arguments: Vec<CommandArgument>,
}

/// The commands a web-controls client may run.
pub open spec fn web_controls_whitelisted(name: Seq<char>) -> bool {
    name == "split-window"@ || name == "new-window"@ || name == "display-message"@ || name
        == "last-window"@ || name == "list-keys"@ || name == "next-window"@ || name
        == "previous-window"@ || name == "select-pane"@ || name == "select-window"@ || name
        == "resize-pane"@ || name == "rename-window"@ || name == "display-panes"@
}

/// The UTF-8 bytes of a string.
pub open spec fn utf8_of(s: Seq<char>) -> Seq<u8> {
    encode_utf8(s)
}

/// Whether an argument names another target: a long target option (bare or
/// with `=`), or a short option cluster holding `t` or `s`.
pub open spec fn spec_is_target_option(arg: Seq<char>) -> bool {
    let b = utf8_of(arg);
    if !starts_with(b, utf8_of("-"@)) || arg == "-"@ {
        false
    } else if arg == "--target"@ || arg == "--target-pane"@ || arg == "--session"@ || arg
        == "--source"@ || arg == "--src-pane"@ || arg == "--dst-pane"@ {
        true
    } else if starts_with(b, utf8_of("--target="@)) || starts_with(b, utf8_of("--target-pane="@))
        || starts_with(b, utf8_of("--session="@)) || starts_with(b, utf8_of("--source="@))
        || starts_with(b, utf8_of("--src-pane="@)) || starts_with(b, utf8_of("--dst-pane="@)) {
        true
    } else if starts_with(b, utf8_of("--"@)) {
        false
    } else {
        exists|i: int| 1 <= i < b.len() && (#[trigger] b[i] == 0x74 || b[i] == 0x73)
    }
}

/// Whether an argument names another target.
pub fn is_target_option(arg: &str) -> (r: bool)
    ensures
        r == spec_is_target_option(arg@),
{
    let b = arg.as_bytes();
    if !has_prefix(b, "-".as_bytes()) || str_eq(arg, "-") {
        return false;
    }
    if str_eq(arg, "--target") || str_eq(arg, "--target-pane") || str_eq(arg, "--session")
        || str_eq(arg, "--source") || str_eq(arg, "--src-pane") || str_eq(arg, "--dst-pane") {
        return true;
    }
    if has_prefix(b, "--target=".as_bytes()) || has_prefix(b, "--target-pane=".as_bytes())
        || has_prefix(b, "--session=".as_bytes()) || has_prefix(b, "--source=".as_bytes())
        || has_prefix(b, "--src-pane=".as_bytes()) || has_prefix(b, "--dst-pane=".as_bytes()) {
        return true;
    }
    if has_prefix(b, "--".as_bytes()) {
        return false;
    }
    proof {
        reveal_strlit("-");
    }
    cluster_names_target(b)
}

/// Whether an option cluster holds `t` or `s` after its dash.
fn cluster_names_target(b: &[u8]) -> (r: bool)
    ensures
        r == exists|i: int| 1 <= i < b@.len() && (#[trigger] b@[i] == 0x74 || b@[i] == 0x73),
{
    let mut i: usize = 1;
    while i < b.len()
        invariant
            1 <= i,
            forall|j: int| 1 <= j < i ==> !(#[trigger] b@[j] == 0x74 || b@[j] == 0x73),
        decreases b@.len() - i,
    {
        if b[i] == 0x74 || b[i] == 0x73 {
            return true;
        }
        i = i + 1;
    }
    false
}

/// The characters of each string slice.
pub open spec fn str_views(words: Seq<&str>) -> Seq<Seq<char>> {
    words.map_values(|w: &str| w@)
}

/// The word arguments of a command, in order.
pub open spec fn word_arguments(args: Seq<CommandArgument>) -> Seq<Seq<char>>
    decreases args.len(),
{
    if args.len() == 0 {
        Seq::empty()
    } else {
        let rest = word_arguments(args.drop_last());
        match args.last() {
            CommandArgument::String(s) => rest.push(s@),
            CommandArgument::Commands(_) => rest,
        }
    }
}

/// Whether a target option comes among the words before a `--`.
pub open spec fn spec_cross_target(words: Seq<Seq<char>>) -> bool
    decreases words.len(),
{
    if words.len() == 0 {
        false
    } else if words[0] == "--"@ {
        false
    } else if spec_is_target_option(words[0]) {
        true
    } else {
        spec_cross_target(words.drop_first())
    }
}

/// Collects the word arguments of a command.
fn collect_words(args: &Vec<CommandArgument>) -> (words: Vec<&str>)
    ensures
        str_views(words@) == word_arguments(args@),
{
    let mut words: Vec<&str> = Vec::new();
    let mut i: usize = 0;
    while i < args.len()
        invariant
            i <= args@.len(),
            str_views(words@) == word_arguments(args@.subrange(0, i as int)),
        decreases args@.len() - i,
    {
        proof {
            assert(args@.subrange(0, i + 1).drop_last() =~= args@.subrange(0, i as int));
        }
        match &args[i] {
            CommandArgument::String(s) => {
                words.push(s.as_str());
            },
            CommandArgument::Commands(_) => {},
        }
        i = i + 1;
        proof {
            assert(str_views(words@) =~= word_arguments(args@.subrange(0, i as int)));
        }
    }
    assert(args@.subrange(0, args@.len() as int) =~= args@);
    words
}

/// Whether a command's words name another target before any `--`.
pub fn contains_cross_target_option(command: &ParsedCommand) -> (r: bool)
    ensures
        r == spec_cross_target(word_arguments(command.arguments@)),
{
    let words = collect_words(&command.arguments);
    let ghost ws = str_views(words@);
    assert(ws.subrange(0, ws.len() as int) =~= ws);
    let mut index: usize = 0;
    while index < words.len()
        invariant
            index <= words@.len(),
            ws == str_views(words@),
            ws == word_arguments(command.arguments@),
            spec_cross_target(ws) == spec_cross_target(ws.subrange(index as int, ws.len() as int)),
        decreases words@.len() - index,
    {
        let arg = words[index];
        let ghost rest = ws.subrange(index as int, ws.len() as int);
        assert(ws[index as int] == words@[index as int]@);
        assert(rest[0] == arg@);
        assert(rest.drop_first() =~= ws.subrange(index + 1, ws.len() as int));
        if str_eq(arg, "--") {
            return false;
        }
        if is_target_option(arg) {
            return true;
        }
        index = index + 1;
    }
    false
}

/// Whether a command may run through web controls: a whitelisted command,
/// naming no other target, whose nested command blocks may all run too.
pub open spec fn spec_command_allowed(c: ParsedCommand) -> bool
    decreases c,
{
    &&& web_controls_whitelisted(c.name@)
    &&& !spec_cross_target(word_arguments(c.arguments@))
    &&& forall|i: int|
        #![trigger c.arguments@[i]]
        0 <= i < c.arguments@.len() ==> match c.arguments@[i] {
            CommandArgument::String(_) => true,
            CommandArgument::Commands(cs) => forall|j: int|
                #![trigger cs@[j]]
                0 <= j < cs@.len() ==> spec_command_allowed(cs@[j]),
        }
}

/// Whether every command of a block may run through web controls.
pub open spec fn spec_commands_allowed(cs: Seq<ParsedCommand>) -> bool {
    forall|j: int| #![trigger cs[j]] 0 <= j < cs.len() ==> spec_command_allowed(cs[j])
}

/// Whether a command's name is on the whitelist.
fn whitelisted(name: &str) -> (r: bool)
    ensures
        r == web_controls_whitelisted(name@),
{
    str_eq(name, "split-window") || str_eq(name, "new-window") || str_eq(name, "display-message")
        || str_eq(name, "last-window") || str_eq(name, "list-keys") || str_eq(name, "next-window")
        || str_eq(name, "previous-window") || str_eq(name, "select-pane") || str_eq(
        name,
        "select-window",
    ) || str_eq(name, "resize-pane") || str_eq(name, "rename-window") || str_eq(
        name,
        "display-panes",
    )
}

/// Whether every command of a block may run through web controls.
pub fn web_controls_commands_allowed(commands: &Vec<ParsedCommand>) -> (r: bool)
    ensures
        r == spec_commands_allowed(commands@),
    decreases commands, 1nat,
{
    let mut j: usize = 0;
    while j < commands.len()
        invariant
            j <= commands@.len(),
            forall|k: int| 0 <= k < j ==> spec_command_allowed(#[trigger] commands@[k]),
        decreases commands@.len() - j,
    {
        proof {
            assert(decreases_to!(commands => commands@[j as int]));
        }
        if !web_controls_command_allowed(&commands[j]) {
            return false;
        }
        j = j + 1;
    }
    true
}

/// Whether a command may run through web controls.
pub fn web_controls_command_allowed(command: &ParsedCommand) -> (r: bool)
    ensures
        r == spec_command_allowed(*command),
    decreases command, 0nat,
{
    if !whitelisted(command.name.as_str()) {
        return false;
    }
    if contains_cross_target_option(command) {
        return false;
    }
    let mut i: usize = 0;
    while i < command.arguments.len()
        invariant
            i <= command.arguments@.len(),
            web_controls_whitelisted(command.name@),
            !spec_cross_target(word_arguments(command.arguments@)),
            forall|k: int|
                #![trigger command.arguments@[k]]
                0 <= k < i ==> match command.arguments@[k] {
                    CommandArgument::String(_) => true,
                    CommandArgument::Commands(cs) => spec_commands_allowed(cs@),
                },
        decreases command.arguments@.len() - i,
    {
        match &command.arguments[i] {
            CommandArgument::String(_) => {},
            CommandArgument::Commands(nested) => {
                proof {
                    assert(decreases_to!(*command => *nested));
                }
                if !web_controls_commands_allowed(nested) {
                    return false;
                }
            },
        }
        i = i + 1;
    }
    true
}

/// Whether a word is an option cluster holding `letter`.
pub open spec fn option_has(word: Seq<char>, letter: u8) -> bool {
    starts_with(utf8_of(word), utf8_of("-"@)) && contains_bytes(utf8_of(word), seq![letter])
}

/// Whether a command waits on a prompt: `display-panes` and
/// `confirm-before` unless given `-b`, `command-prompt` unless given `-b` or
/// `-i`.
pub open spec fn spec_blocks_for_prompt(c: ParsedCommand) -> bool {
    let words = word_arguments(c.arguments@);
    if c.name@ == "display-panes"@ || c.name@ == "confirm-before"@ {
        !exists|i: int| 0 <= i < words.len() && option_has(#[trigger] words[i], 0x62)
    } else if c.name@ == "command-prompt"@ {
        !exists|i: int|
            0 <= i < words.len() && (option_has(#[trigger] words[i], 0x62) || option_has(
                words[i],
                0x69,
            ))
    } else {
        false
    }
}

/// Whether any word is an option cluster holding one of the letters.
fn any_option_has(words: &Vec<&str>, first: u8, second: Option<u8>) -> (r: bool)
    ensures
        r == exists|i: int|
            0 <= i < words@.len() && (option_has(#[trigger] str_views(words@)[i], first) || (second matches Some(s)
                && option_has(str_views(words@)[i], s))),
{
    let mut i: usize = 0;
    while i < words.len()
        invariant
            i <= words@.len(),
            forall|k: int|
                0 <= k < i ==> !(option_has(#[trigger] str_views(words@)[k], first) || (second matches Some(s)
                    && option_has(str_views(words@)[k], s))),
        decreases words@.len() - i,
    {
        assert(str_views(words@)[i as int] == words@[i as int]@);
        let w = words[i].as_bytes();
        if has_prefix(w, "-".as_bytes()) {
            let one = [first];
            if find_bytes(w, &one) {
                assert(one@ =~= seq![first]);
                return true;
            }
            assert(one@ =~= seq![first]);
            match second {
                Some(s) => {
                    let two = [s];
                    assert(two@ =~= seq![s]);
                    if find_bytes(w, &two) {
                        return true;
                    }
                },
                None => {},
            }
        }
        i = i + 1;
    }
    false
}

/// Whether a command waits on a prompt.
pub fn parsed_command_blocks_for_prompt(command: &ParsedCommand) -> (r: bool)
    ensures
        r == spec_blocks_for_prompt(*command),
{
    let words = collect_words(&command.arguments);
    let name = command.name.as_str();
    if str_eq(name, "display-panes") || str_eq(name, "confirm-before") {
        !any_option_has(&words, 0x62, None)
    } else if str_eq(name, "command-prompt") {
        !any_option_has(&words, 0x62, Some(0x69))
    } else {
        false
    }
}

/// Whether any command of a block waits on a prompt.
pub fn parsed_commands_block_for_prompt(commands: &Vec<ParsedCommand>) -> (r: bool)
    ensures
        r == exists|j: int| 0 <= j < commands@.len() && spec_blocks_for_prompt(#[trigger] commands@[j]),
{
    let mut j: usize = 0;
    while j < commands.len()
        invariant
            j <= commands@.len(),
            forall|k: int| 0 <= k < j ==> !spec_blocks_for_prompt(#[trigger] commands@[k]),
        decreases commands@.len() - j,
    {
        if parsed_command_blocks_for_prompt(&commands[j]) {
            return true;
        }
        j = j + 1;
    }
    false
}

/// Whether a block runs `list-keys`, whose output opens for the client.
pub fn parsed_commands_open_attached_output(commands: &Vec<ParsedCommand>) -> (r: bool)
    ensures
        r == exists|j: int| 0 <= j < commands@.len() && #[trigger] commands@[j].name@ == "list-keys"@,
{
    let mut j: usize = 0;
    while j < commands.len()
        invariant
            j <= commands@.len(),
            forall|k: int| 0 <= k < j ==> #[trigger] commands@[k].name@ != "list-keys"@,
        decreases commands@.len() - j,
    {
        if str_eq(commands[j].name.as_str(), "list-keys") {
            return true;
        }
        j = j + 1;
    }
    false
}

} // verus!
