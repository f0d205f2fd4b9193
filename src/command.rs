use vstd::prelude::*;

use crate::record::{alias_of, str_is, Category};
use crate::Env;

verus! {

/// What a command line asks for.
#[derive(Clone, Debug)]
pub enum Command {
    /// Print the record.
    Show,
    /// Empty the record.
    Clear,
    /// Open the record file in an editor: the one named, or the default.
    Edit(Option<String>),
    /// Take back the last append.
    Undo,
    /// Print the usage text.
    Help,
    /// Append an item to a list.
    Add(Category, String),
    /// Anything else.
    Invalid,
}

/// The command that a word alone asks for, `Add` and `Edit` with an editor aside.
pub open spec fn single_word(w: Seq<char>, r: Command) -> bool {
    if w == "clear"@ {
        r is Clear
    } else if w == "edit"@ {
        r is Edit && r->Edit_0 is None
    } else if w == "undo"@ {
        r is Undo
    } else if w == "help"@ || w == "--help"@ {
        r is Help
    } else {
        r is Invalid
    }
}

/// Reads the arguments of a run, the program's name first: none after it
/// shows the record; one word is `clear`, `edit`, `undo`, `help` or
/// `--help`; a list alias and an item append it; `edit` and a name edits
/// with that editor; anything else is invalid.
pub fn parse_command(args: &Vec<String>) -> (r: Command)
    requires
        args@.len() >= 1,
    ensures
        args@.len() == 1 ==> r is Show,
        args@.len() == 2 ==> single_word(args@[1]@, r),
        args@.len() == 3 ==> match alias_of(args@[1]@) {
            Some(c) => r is Add && r->Add_0 == c && r->Add_1@ == args@[2]@,
            None => if args@[1]@ == "edit"@ {
                r is Edit && r->Edit_0 is Some && r->Edit_0->Some_0@ == args@[2]@
            } else {
                r is Invalid
            },
        },
        args@.len() > 3 ==> r is Invalid,
{
    let n = args.len();
    if n == 1 {
        Command::Show
    } else if n == 2 {
        let w = args[1].as_str();
        if str_is(w, "clear") {
            Command::Clear
        } else if str_is(w, "edit") {
            Command::Edit(None)
        } else if str_is(w, "undo") {
            Command::Undo
        } else if str_is(w, "help") || str_is(w, "--help") {
            Command::Help
        } else {
            Command::Invalid
        }
    } else if n == 3 {
        let w = args[1].as_str();
        match Category::from_alias(w) {
            Some(c) => Command::Add(c, args[2].clone()),
            None => {
                if str_is(w, "edit") {
                    Command::Edit(Some(args[2].clone()))
                } else {
                    Command::Invalid
                }
            },
        }
    } else {
        Command::Invalid
    }
}

/// The name of the record file: one for real use, another for tests.
pub fn data_file_name(env: Env) -> (r: &'static str)
    ensures
        env == Env::Prod ==> r@ == "laydown.ron"@,
        env == Env::Test ==> r@ == "test_laydown.ron"@,
{
    match env {
        Env::Prod => "laydown.ron",
        Env::Test => "test_laydown.ron",
    }
}

} // verus!
