//! The commands of the debugger's prompt, and how a line of words is read
//! as one of them.

use crate::text::{lemma_texts_push, same_text, texts};
use vstd::prelude::*;

verus! {

/// One command of the debugger's prompt.
pub enum DebuggerCommand {
    /// Leave the debugger.
    Quit,
    /// Start the program with these arguments.
    Run(Vec<String>),
    /// Let the stopped program go on.
    Continue,
    /// Show the call stack.
    Backtrace,
    /// Set a breakpoint at the given place, if one is given.
    BreakPoint(Option<String>),
}

/// The character sequences of a list of words, in order.
pub open spec fn words(tokens: Seq<&str>) -> Seq<Seq<char>> {
    Seq::new(tokens.len(), |i: int| tokens[i]@)
}

/// `w` asks to quit.
pub open spec fn is_quit(w: Seq<char>) -> bool {
    w == "q"@ || w == "quit"@
}

/// `w` asks to run the program.
pub open spec fn is_run(w: Seq<char>) -> bool {
    w == "r"@ || w == "run"@
}

/// `w` asks to continue.
pub open spec fn is_continue(w: Seq<char>) -> bool {
    w == "c"@ || w == "cont"@ || w == "continue"@
}

/// `w` asks for the call stack.
pub open spec fn is_backtrace(w: Seq<char>) -> bool {
    w == "bt"@ || w == "back"@ || w == "backtrace"@
}

/// `w` asks for a breakpoint.
pub open spec fn is_break(w: Seq<char>) -> bool {
    w == "b"@ || w == "break"@ || w == "breakpoint"@
}

impl DebuggerCommand {
    /// Reads a line of words as a command. The first word names the command;
    /// `run` takes all further words as arguments, `break` takes the second
    /// word, if there is one, and the other commands ignore further words.
    /// A first word that names no command gives `None`.
    pub fn from_tokens(tokens: &Vec<&str>) -> (r: Option<DebuggerCommand>)
        requires
            tokens@.len() > 0,
        ensures
            r is Some <==> (is_quit(tokens@[0]@) || is_run(tokens@[0]@) || is_continue(tokens@[0]@)
                || is_backtrace(tokens@[0]@) || is_break(tokens@[0]@)),
            match r {
                Some(DebuggerCommand::Quit) => is_quit(tokens@[0]@),
                Some(DebuggerCommand::Run(args)) => {
                    &&& is_run(tokens@[0]@)
                    &&& texts(args@) == words(tokens@).subrange(1, tokens@.len() as int)
                },
                Some(DebuggerCommand::Continue) => is_continue(tokens@[0]@),
                Some(DebuggerCommand::Backtrace) => is_backtrace(tokens@[0]@),
                Some(DebuggerCommand::BreakPoint(place)) => {
                    &&& is_break(tokens@[0]@)
                    &&& match place {
                        Some(p) => tokens@.len() > 1 && p@ == tokens@[1]@,
                        None => tokens@.len() == 1,
                    }
                },
                None => true,
            },
    {
        let first: &str = tokens[0];
        if same_text(first, "q") || same_text(first, "quit") {
            Some(DebuggerCommand::Quit)
        } else if same_text(first, "r") || same_text(first, "run") {
            let mut args: Vec<String> = Vec::new();
            let mut i: usize = 1;
            assert(texts(args@) =~= words(tokens@).subrange(1, 1));
            while i < tokens.len()
                invariant
                    1 <= i <= tokens@.len(),
                    texts(args@) == words(tokens@).subrange(1, i as int),
                decreases tokens@.len() - i,
            {
                let arg = tokens[i].to_owned();
                proof {
                    lemma_texts_push(args@, arg);
                    assert(words(tokens@).subrange(1, i as int).push(arg@) =~= words(
                        tokens@,
                    ).subrange(1, i + 1));
                }
                args.push(arg);
                i += 1;
            }
            Some(DebuggerCommand::Run(args))
        } else if same_text(first, "c") || same_text(first, "cont") || same_text(
            first,
            "continue",
        ) {
            Some(DebuggerCommand::Continue)
        } else if same_text(first, "bt") || same_text(first, "back") || same_text(
            first,
            "backtrace",
        ) {
            Some(DebuggerCommand::Backtrace)
        } else if same_text(first, "b") || same_text(first, "break") || same_text(
            first,
            "breakpoint",
        ) {
            let mut arg_1: Option<String> = None;
            if tokens.len() > 1 {
                arg_1 = Some(tokens[1].to_owned());
            }
            Some(DebuggerCommand::BreakPoint(arg_1))
        } else {
            None
        }
    }
}

/// No word names two commands, so the order in which the commands are tried
/// does not matter.
pub proof fn law_command_words_name_one_command(w: Seq<char>)
    ensures
        !(is_quit(w) && is_run(w)),
        !(is_quit(w) && is_continue(w)),
        !(is_quit(w) && is_backtrace(w)),
        !(is_quit(w) && is_break(w)),
        !(is_run(w) && is_continue(w)),
        !(is_run(w) && is_backtrace(w)),
        !(is_run(w) && is_break(w)),
        !(is_continue(w) && is_backtrace(w)),
        !(is_continue(w) && is_break(w)),
        !(is_backtrace(w) && is_break(w)),
{
    reveal_strlit("q");
    reveal_strlit("quit");
    reveal_strlit("r");
    reveal_strlit("run");
    reveal_strlit("c");
    reveal_strlit("cont");
    reveal_strlit("continue");
    reveal_strlit("bt");
    reveal_strlit("back");
    reveal_strlit("backtrace");
    reveal_strlit("b");
    reveal_strlit("break");
    reveal_strlit("breakpoint");
    // Words of the same length differ in their first character.
    assert("q"@.len() == 1 && "r"@.len() == 1 && "c"@.len() == 1 && "b"@.len() == 1);
    assert("q"@[0] == 'q' && "r"@[0] == 'r' && "c"@[0] == 'c' && "b"@[0] == 'b');
    assert("quit"@.len() == 4 && "cont"@.len() == 4 && "back"@.len() == 4);
    assert("quit"@[0] == 'q' && "cont"@[0] == 'c' && "back"@[0] == 'b');
    // Every other word has a length of its own.
    assert("bt"@.len() == 2 && "run"@.len() == 3 && "break"@.len() == 5);
    assert("continue"@.len() == 8 && "backtrace"@.len() == 9 && "breakpoint"@.len() == 10);
}

} // verus!
