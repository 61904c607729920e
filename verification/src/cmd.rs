//! The command interpreter: what a chat line that opens with the command
//! sentinel asks for.

use vstd::prelude::*;

use crate::text::{lowercase, to_lowercase};

verus! {

/// The directive to announce a kick of one user.
#[derive(Debug, PartialEq, Eq)]
pub struct CmdKick {
    pub target: String,
}

/// A directive parsed from a chat line.
#[derive(Debug, PartialEq, Eq)]
pub enum Command {
    /// Announce a kick of the named user.
    Kick(CmdKick),
    /// List the users of the channel.
    Users,
}

/// What a `Command` stands for.
pub enum CommandView {
    Kick { target: Seq<char> },
    Users,
}

impl View for CmdKick {
    type V = Seq<char>;

    open spec fn view(&self) -> Seq<char> {
        self.target@
    }
}

impl View for Command {
    type V = CommandView;

    open spec fn view(&self) -> CommandView {
        match self {
            Command::Kick(kick) => CommandView::Kick { target: kick.target@ },
            Command::Users => CommandView::Users,
        }
    }
}

/// The words of a line under the quoting rules of the POSIX shell, as
/// `shlex::split` gives them; `None` where the line ends inside a quotation
/// or behind a backslash.
pub uninterp spec fn shell_words(line: Seq<char>) -> Option<Seq<Seq<char>>>;

/// `shlex::split`: the words of `line`, or `None` where the line is
/// erroneous. The result is a function of the line alone, which this library
/// names without spelling it out.
#[verifier::external_body]
fn split_words(line: &str) -> (words: Option<Vec<String>>)
    ensures
        match words {
            Some(w) => shell_words(line@) == Some(w.deep_view()),
            None => shell_words(line@) is None,
        },
{
    shlex::split(line)
}

/// Whether a word reads as an option rather than as a value: a dash and at
/// least one more character.
pub open spec fn is_option(word: Seq<char>) -> bool {
    word.len() >= 2 && word[0] == '-'
}

/// The values among the arguments of a command. The first `--` is no value:
/// it ends the search for options, and every word behind it is a value.
/// Before it a word that reads as an option makes the arguments malformed,
/// since no command takes options: the result is then `None`.
pub open spec fn positionals(args: Seq<Seq<char>>, escaped: bool) -> Option<Seq<Seq<char>>>
    decreases args.len(),
{
    if args.len() == 0 {
        Some(Seq::empty())
    } else if !escaped && args[0] == "--"@ {
        positionals(args.drop_first(), true)
    } else if !escaped && is_option(args[0]) {
        None
    } else {
        match positionals(args.drop_first(), escaped) {
            Some(values) => Some(seq![args[0]] + values),
            None => None,
        }
    }
}

/// Arguments of which none opens with a dash are all values, in their
/// order.
pub proof fn lemma_plain_words_are_values(args: Seq<Seq<char>>, escaped: bool)
    requires
        forall|i: int| 0 <= i < args.len() ==> (#[trigger] args[i]).len() == 0 || args[i][0] != '-',
    ensures
        positionals(args, escaped) == Some(args),
    decreases args.len(),
{
    if args.len() == 0 {
        assert(args =~= Seq::<Seq<char>>::empty());
    } else {
        reveal_strlit("--");
        let rest = args.drop_first();
        assert forall|i: int| 0 <= i < rest.len() implies (#[trigger] rest[i]).len() == 0
            || rest[i][0] != '-' by {
            assert(rest[i] == args[i + 1]);
        }
        lemma_plain_words_are_values(rest, escaped);
        assert(args[0].len() == 0 || args[0][0] != '-');
        assert(seq![args[0]] + rest =~= args);
    }
}

/// Behind the first `--` every word is a value.
pub proof fn lemma_escaped_words_are_values(args: Seq<Seq<char>>)
    ensures
        positionals(args, true) == Some(args),
    decreases args.len(),
{
    if args.len() == 0 {
        assert(args =~= Seq::<Seq<char>>::empty());
    } else {
        lemma_escaped_words_are_values(args.drop_first());
        assert(seq![args[0]] + args.drop_first() =~= args);
    }
}

/// The command that a name in lower case and its arguments stand for: `kick`
/// takes exactly one value, the target, and `users` takes none.
pub open spec fn command_of(name: Seq<char>, args: Seq<Seq<char>>) -> Option<CommandView> {
    match positionals(args, false) {
        Some(values) => {
            if name == "kick"@ && values.len() == 1 {
                Some(CommandView::Kick { target: values[0] })
            } else if name == "users"@ && values.len() == 0 {
                Some(CommandView::Users)
            } else {
                None
            }
        },
        None => None,
    }
}

/// Only the names `kick` and `users` stand for a command, and the command
/// is of the kind that the name says.
pub proof fn lemma_command_goes_by_name(name: Seq<char>, args: Seq<Seq<char>>)
    ensures
        command_of(name, args) is Some ==> name == "kick"@ || name == "users"@,
        command_of(name, args) matches Some(CommandView::Kick { .. }) ==> name == "kick"@,
        command_of(name, args) matches Some(CommandView::Users) ==> name == "users"@,
{
    reveal_strlit("kick");
    reveal_strlit("users");
}

/// The command that the words of a line stand for: the first word, in any
/// mix of cases, names it, and the others are its arguments.
pub open spec fn command_of_words(words: Option<Seq<Seq<char>>>) -> Option<CommandView> {
    match words {
        Some(w) => if w.len() == 0 {
            None
        } else {
            command_of(lowercase(w[0]), w.drop_first())
        },
        None => None,
    }
}

/// The command that a line stands for.
pub open spec fn command_of_line(line: Seq<char>) -> Option<CommandView> {
    command_of_words(shell_words(line))
}

/// Whether `cmd` is what `meant` says.
pub open spec fn command_is(cmd: Option<Command>, meant: Option<CommandView>) -> bool {
    match cmd {
        Some(c) => meant == Some(c@),
        None => meant is None,
    }
}

/// The values among `args`, or `None` where a word before the first `--`
/// reads as an option.
pub fn values_of(args: &[String]) -> (values: Option<Vec<String>>)
    ensures
        match values {
            Some(v) => positionals(args.deep_view(), false) == Some(v.deep_view()),
            None => positionals(args.deep_view(), false) is None,
        },
{
    let escape = "--".to_owned();
    let mut values: Vec<String> = Vec::new();
    let mut escaped = false;
    let mut i: usize = 0;
    proof {
        assert(args.deep_view().skip(0) =~= args.deep_view());
        assert(values.deep_view() =~= Seq::<Seq<char>>::empty());
    }
    while i < args.len()
        invariant
            i <= args@.len(),
            escape@ == "--"@,
            positionals(args.deep_view(), false) == match positionals(
                args.deep_view().skip(i as int),
                escaped,
            ) {
                Some(rest) => Some(values.deep_view() + rest),
                None => None,
            },
        decreases args@.len() - i,
    {
        let word = &args[i];
        proof {
            let here = args.deep_view().skip(i as int);
            assert(here[0] == word@);
            assert(here.drop_first() =~= args.deep_view().skip(i + 1));
        }
        if !escaped && *word == escape {
            escaped = true;
        } else if !escaped && reads_as_option(word.as_str()) {
            return None;
        } else {
            let ghost before = values.deep_view();
            values.push(word.clone());
            proof {
                assert(values.deep_view() =~= before.push(word@));
                match positionals(args.deep_view().skip(i + 1), escaped) {
                    Some(rest) => {
                        assert(before + (seq![word@] + rest) =~= values.deep_view() + rest);
                    },
                    None => {},
                }
            }
        }
        i += 1;
    }
    proof {
        assert(values.deep_view() + Seq::<Seq<char>>::empty() =~= values.deep_view());
    }
    Some(values)
}

/// Whether `word` reads as an option.
fn reads_as_option(word: &str) -> (yes: bool)
    ensures
        yes == is_option(word@),
{
    word.unicode_len() >= 2 && word.get_char(0) == '-'
}

/// The command that `name`, already in lower case, and `args` stand for.
pub fn select_command(name: &str, args: &[String]) -> (cmd: Option<Command>)
    ensures
        command_is(cmd, command_of(name@, args.deep_view())),
{
    let name = name.to_owned();
    match values_of(args) {
        Some(mut values) => {
            if name == "kick".to_owned() && values.len() == 1 {
                let target = values.remove(0);
                Some(Command::Kick(CmdKick { target }))
            } else if name == "users".to_owned() && values.len() == 0 {
                Some(Command::Users)
            } else {
                None
            }
        },
        None => None,
    }
}

/// The command that the words of a line stand for; no command where the
/// words could not be told apart or there are none.
pub fn command_from_words(words: Option<Vec<String>>) -> (cmd: Option<Command>)
    ensures
        command_is(
            cmd,
            command_of_words(
                match words {
                    Some(w) => Some(w.deep_view()),
                    None => None,
                },
            ),
        ),
{
    match words {
        Some(w) => {
            if w.len() == 0 {
                None
            } else {
                let name = to_lowercase(w[0].as_str());
                let args = vstd::slice::slice_subrange(w.as_slice(), 1, w.len());
                proof {
                    assert(args.deep_view() =~= w.deep_view().drop_first());
                }
                select_command(name.as_str(), args)
            }
        },
        None => None,
    }
}

/// Text that may hold a command.
pub trait ParseableCommand {
    /// The command that the text stands for.
    spec fn command(&self) -> Option<CommandView>;

    /// Parses the text, which no longer carries the sentinel, as a command.
    fn parse_cmd(&self) -> (cmd: Option<Command>)
        ensures
            command_is(cmd, self.command()),
    ;
}

impl ParseableCommand for &str {
    open spec fn command(&self) -> Option<CommandView> {
        command_of_line(self@)
    }

    fn parse_cmd(&self) -> (cmd: Option<Command>) {
        command_from_words(split_words(self))
    }
}

} // verus!
