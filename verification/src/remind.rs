//! The reminder: which startup file a shell reads, what the command line
//! asks for, and the alias that is picked and shown.

use rand::seq::IndexedRandom;
use vstd::prelude::*;
use crate::pattern::{captures, captures_view, group, group_of, regex_captures, BINDING_PATTERN};
use crate::text::{
    same_text, strip_quotes, strip_semicolon, texts, without_final_semicolon, without_quotes,
};

verus! {

/// What the command line asks for.
#[derive(Debug, Clone, Copy, PartialEq, Eq, Structural)]
pub enum Command {
    /// Show one alias, picked at random.
    RemindRandom,
    /// Do nothing.
    Nothing,
}

/// An alias definition taken apart.
#[derive(Debug, PartialEq, Eq)]
pub struct Binding {
    /// The alias.
    pub name: String,
    /// The command that it stands for.
    pub command: String,
}

/// What there is to show.
#[derive(Debug, PartialEq, Eq)]
pub enum Reminder {
    /// There is no alias to pick from.
    NoAliases,
    /// The alias that was picked, and its command.
    Tip(Binding),
    /// The definition that was picked cannot be shown.
    Nothing,
}

/// A reminder as plain text.
pub enum ReminderView {
    /// There is no alias to pick from.
    NoAliases,
    /// The alias that was picked, and its command.
    Tip { name: Seq<char>, command: Seq<char> },
    /// The definition that was picked cannot be shown.
    Nothing,
}

impl View for Binding {
    type V = (Seq<char>, Seq<char>);

    open spec fn view(&self) -> (Seq<char>, Seq<char>) {
        (self.name@, self.command@)
    }
}

impl View for Reminder {
    type V = ReminderView;

    open spec fn view(&self) -> ReminderView {
        match *self {
            Reminder::NoAliases => ReminderView::NoAliases,
            Reminder::Tip(b) => ReminderView::Tip { name: b.name@, command: b.command@ },
            Reminder::Nothing => ReminderView::Nothing,
        }
    }
}

/// The contents of an optional binding: the name and the command.
pub open spec fn binding_view(b: Option<Binding>) -> Option<(Seq<char>, Seq<char>)> {
    match b {
        Some(b) => Some(b@),
        None => None,
    }
}

/// The startup file of a shell, in home-relative notation.
pub open spec fn entry_file_of(shell: Seq<char>) -> Option<Seq<char>> {
    if shell == "zsh"@ {
        Some("~/.zshrc"@)
    } else if shell == "bash"@ {
        Some("~/.bashrc"@)
    } else {
        None
    }
}

/// What the arguments of the program ask for, the program's name being
/// argument 0.
pub open spec fn command_of(args: Seq<Seq<char>>) -> Command {
    if args.len() > 2 && args[1] == "reminder"@ && args[2] == "--random"@ {
        Command::RemindRandom
    } else {
        Command::Nothing
    }
}

/// The name and the command in the groups of a search for a binding: the
/// first group is the name; the second, without its quotes and then without
/// one final semicolon, is the command.
pub open spec fn binding_in(caps: Option<Seq<Option<Seq<char>>>>) -> Option<
    (Seq<char>, Seq<char>),
> {
    match (group_of(caps, 1), group_of(caps, 2)) {
        (Some(name), Some(rest)) => Some((name, without_final_semicolon(without_quotes(rest)))),
        _ => None,
    }
}

/// The name and the command of the definition `raw`, if it is a binding.
pub open spec fn binding_of(raw: Seq<char>) -> Option<(Seq<char>, Seq<char>)> {
    binding_in(regex_captures(BINDING_PATTERN@, raw))
}

/// The reminder for what was picked.
pub open spec fn reminder_of(picked: Option<Seq<char>>) -> ReminderView {
    match picked {
        None => ReminderView::NoAliases,
        Some(raw) => match binding_of(raw) {
            Some((name, command)) => ReminderView::Tip { name, command },
            None => ReminderView::Nothing,
        },
    }
}

/// The startup file that the shell named `shell` reads; `None` for a shell
/// that is not supported.
pub fn entry_file(shell: &str) -> (file: Option<&'static str>)
    ensures
        match file {
            Some(path) => entry_file_of(shell@) == Some(path@),
            None => entry_file_of(shell@) is None,
        },
{
    if same_text(shell, "zsh") {
        Some("~/.zshrc")
    } else if same_text(shell, "bash") {
        Some("~/.bashrc")
    } else {
        None
    }
}

/// Reads off the program's arguments what it is asked to do.
pub fn command(args: &Vec<String>) -> (asked: Command)
    ensures
        asked == command_of(texts(args@)),
{
    if args.len() > 2 && same_text(args[1].as_str(), "reminder") && same_text(
        args[2].as_str(),
        "--random",
    ) {
        Command::RemindRandom
    } else {
        Command::Nothing
    }
}

/// Calls `choose` of `rand::seq::IndexedRandom` on the slice, with the
/// generator that `rand::rng` hands out. It gives nothing for an empty slice
/// and one of the elements otherwise; which one is left open.
#[verifier::external_body]
fn choose_one(items: &Vec<String>) -> (picked: Option<&String>)
    ensures
        picked is None <==> items.len() == 0,
        picked is Some ==> texts(items@).contains(picked.unwrap()@),
{
    items.choose(&mut rand::rng())
}

/// Picks one of `aliases` at random; nothing where there is none.
pub fn random_choice(aliases: &Vec<String>) -> (picked: Option<&String>)
    ensures
        picked is None <==> aliases.len() == 0,
        picked is Some ==> texts(aliases@).contains(picked.unwrap()@),
        aliases.len() == 1 ==> picked.unwrap()@ == aliases@[0]@,
{
    if aliases.is_empty() {
        return None;
    }
    choose_one(aliases)
}

/// Takes the name and the command out of what a search for a binding gave.
pub fn binding_from(found: &Option<Vec<Option<String>>>) -> (binding: Option<Binding>)
    ensures
        binding_view(binding) == binding_in(captures_view(*found)),
{
    match (group(found, 1), group(found, 2)) {
        (Some(name), Some(rest)) => Some(
            Binding {
                name: name.clone(),
                command: strip_semicolon(strip_quotes(rest.as_str())),
            },
        ),
        _ => None,
    }
}

/// Takes the definition `raw` apart into the alias and its command; `None`
/// where `raw` is not of the form that can be shown.
pub fn format_alias(raw: &str) -> (binding: Option<Binding>)
    ensures
        binding_view(binding) == binding_of(raw@),
{
    binding_from(&captures(BINDING_PATTERN, raw))
}

/// The reminder for what was picked: none without a pick, the alias and its
/// command where the pick can be taken apart, and nothing to show otherwise.
pub fn reminder_for(picked: Option<&String>) -> (reminder: Reminder)
    ensures
        reminder@ == reminder_of(
            match picked {
                Some(raw) => Some(raw@),
                None => None,
            },
        ),
{
    match picked {
        None => Reminder::NoAliases,
        Some(raw) => match format_alias(raw.as_str()) {
            Some(binding) => Reminder::Tip(binding),
            None => Reminder::Nothing,
        },
    }
}

/// Picks one of `aliases` at random and makes the reminder for it.
pub fn remind_random(aliases: &Vec<String>) -> (reminder: Reminder)
    ensures
        aliases.len() == 0 ==> reminder@ == ReminderView::NoAliases,
        aliases.len() > 0 ==> exists|i: int|
            0 <= i < aliases.len() && reminder@ == reminder_of(Some(#[trigger] aliases@[i]@)),
{
    let picked = random_choice(aliases);
    proof {
        if aliases.len() > 0 {
            let i = choose|i: int|
                0 <= i < aliases.len() && texts(aliases@)[i] == picked.unwrap()@;
            assert(aliases@[i]@ == picked.unwrap()@);
        }
    }
    reminder_for(picked)
}

} // verus!
