//! The decisions of the debugger's prompt: what a breakpoint argument
//! names, which breakpoints are set, and what a command leads to given
//! whether a traced process is alive.

use crate::debugger_command::DebuggerCommand;
use crate::number::{parse_decimal, parse_hex, unsigned_of};
use std::collections::HashMap;
use vstd::prelude::*;

verus! {

/// The byte that makes the processor trap: it is written over the first
/// byte of an instruction to set a breakpoint there.
pub const TRAP_BYTE: u8 = 0xcc;

/// `addr` without a leading `0x`, in either case of the letter.
pub open spec fn address_digits(addr: Seq<char>) -> Seq<char> {
    if addr.len() >= 2 && addr[0] == '0' && (addr[1] == 'x' || addr[1] == 'X') {
        addr.skip(2)
    } else {
        addr
    }
}

/// The address that `addr` writes in hexadecimal, with or without a leading
/// `0x`.
pub open spec fn address_of(addr: Seq<char>) -> Option<nat> {
    unsigned_of(address_digits(addr), 16)
}

/// Reads a hexadecimal address, with or without a leading `0x`.
pub fn parse_address(addr: &str) -> (r: Option<usize>)
    ensures
        match r {
            Some(a) => address_of(addr@) == Some(a as nat),
            None => address_of(addr@) is None,
        },
{
    let n = addr.unicode_len();
    if n >= 2 && addr.get_char(0) == '0' && (addr.get_char(1) == 'x' || addr.get_char(1) == 'X') {
        let digits = addr.substring_char(2, n);
        assert(digits@ =~= addr@.skip(2));
        parse_hex(digits)
    } else {
        parse_hex(addr)
    }
}

/// What the argument of a breakpoint command names.
pub enum BreakpointTarget {
    /// A raw address, written with a star in front.
    Address(usize),
    /// A line of the source.
    Line(usize),
    /// A function, by name.
    Function(String),
    /// A star followed by something that is no address.
    Invalid,
}

/// Reads the argument of a breakpoint command: a star and a hexadecimal
/// address, or a decimal line number, or else the name of a function.
pub fn breakpoint_target(arg: &str) -> (target: BreakpointTarget)
    ensures
        arg@.len() > 0 && arg@[0] == '*' ==> match address_of(arg@.skip(1)) {
            Some(a) => target == BreakpointTarget::Address(a as usize),
            None => target is Invalid,
        },
        !(arg@.len() > 0 && arg@[0] == '*') ==> match unsigned_of(arg@, 10) {
            Some(n) => target == BreakpointTarget::Line(n as usize),
            None => target matches BreakpointTarget::Function(name) && name@ == arg@,
        },
{
    let n = arg.unicode_len();
    if n > 0 && arg.get_char(0) == '*' {
        let rest = arg.substring_char(1, n);
        assert(rest@ =~= arg@.skip(1));
        match parse_address(rest) {
            Some(a) => BreakpointTarget::Address(a),
            None => BreakpointTarget::Invalid,
        }
    } else {
        match parse_decimal(arg) {
            Some(line) => BreakpointTarget::Line(line),
            None => BreakpointTarget::Function(arg.to_owned()),
        }
    }
}

/// The breakpoints of a debugging session.
///
/// `addresses` holds every address at which a breakpoint was asked for, in
/// the order of asking. `original_bytes` holds, for each breakpoint that
/// was written into the traced process, the byte that the trap replaced.
pub struct Breakpoints {
    addresses: Vec<usize>,
    original_bytes: HashMap<usize, u8>,
}

impl Breakpoints {
    /// The addresses at which a breakpoint was asked for, in order.
    pub closed spec fn addresses(&self) -> Seq<usize> {
        self.addresses@
    }

    /// The byte that the trap replaced, per address at which it was
    /// written.
    pub closed spec fn original_bytes(&self) -> Map<usize, u8> {
        self.original_bytes@
    }

    /// No breakpoint.
    pub fn new() -> (r: Breakpoints)
        ensures
            r.addresses() == Seq::<usize>::empty(),
            r.original_bytes() == Map::<usize, u8>::empty(),
    {
        Breakpoints { addresses: Vec::new(), original_bytes: HashMap::new() }
    }

    /// The number of breakpoints asked for.
    pub fn len(&self) -> (n: usize)
        ensures
            n == self.addresses().len(),
    {
        self.addresses.len()
    }

    /// The address of the breakpoint with number `i`.
    pub fn address(&self, i: usize) -> (a: usize)
        requires
            i < self.addresses().len(),
        ensures
            a == self.addresses()[i as int],
    {
        self.addresses[i]
    }

    /// Remembers that a breakpoint is wanted at `address` and gives the
    /// number under which it is listed.
    pub fn add(&mut self, address: usize) -> (number: usize)
        ensures
            number == old(self).addresses().len(),
            final(self).addresses() == old(self).addresses().push(address),
            final(self).original_bytes() == old(self).original_bytes(),
    {
        let number = self.addresses.len();
        self.addresses.push(address);
        number
    }

    /// Remembers that the trap at `address` replaced `orig_byte`.
    pub fn record(&mut self, address: usize, orig_byte: u8)
        ensures
            final(self).original_bytes() == old(self).original_bytes().insert(address, orig_byte),
            final(self).addresses() == old(self).addresses(),
    {
        broadcast use vstd::std_specs::hash::group_hash_axioms;

        self.original_bytes.insert(address, orig_byte);
    }

    /// Tells whether a process that stopped with its instruction pointer at
    /// `rip` stopped on a trap of ours. A trap is one byte long, so it
    /// stands at the address before `rip`. Gives that address and the byte
    /// that the trap replaced.
    pub fn hit(&self, rip: usize) -> (r: Option<(usize, u8)>)
        ensures
            match r {
                Some((address, orig_byte)) => {
                    &&& rip > 0
                    &&& address == rip - 1
                    &&& self.original_bytes().contains_key(address)
                    &&& self.original_bytes()[address] == orig_byte
                },
                None => rip == 0 || !self.original_bytes().contains_key((rip - 1) as usize),
            },
    {
        broadcast use vstd::std_specs::hash::group_hash_axioms;

        if rip == 0 {
            return None;
        }
        let address = rip - 1;
        match self.original_bytes.get(&address) {
            Some(orig_byte) => Some((address, *orig_byte)),
            None => None,
        }
    }
}

/// What the debugger does in answer to a command.
pub enum DebuggerAction {
    /// Start the program with these arguments, after killing the process
    /// that is still there, if `kill_first` says so.
    Start { kill_first: bool, args: Vec<String> },
    /// Let the stopped process go on.
    Resume,
    /// Show the call stack of the stopped process.
    ShowBacktrace,
    /// Set a breakpoint at this target.
    SetBreakpoint(BreakpointTarget),
    /// Tell the user how the breakpoint command is written.
    ShowBreakpointUsage,
    /// Tell the user that nothing can be continued: no process is alive.
    RefuseContinue,
    /// Tell the user that no call stack can be shown: no process is alive.
    RefuseBacktrace,
    /// Leave, after killing the process that is still there, if `kill_first`
    /// says so.
    Quit { kill_first: bool },
}

/// Decides what a command leads to. `has_inferior` says whether a process
/// was started at all, `exited` whether that process has exited.
///
/// Continuing and the call stack need a process that has not exited. A
/// start or a quit first kills whatever process there is.
pub fn plan(command: DebuggerCommand, has_inferior: bool, exited: bool) -> (action: DebuggerAction)
    ensures
        match command {
            DebuggerCommand::Quit => action == (DebuggerAction::Quit { kill_first: has_inferior }),
            DebuggerCommand::Run(args) => action == (DebuggerAction::Start {
                kill_first: has_inferior,
                args: args,
            }),
            DebuggerCommand::Continue => if has_inferior && !exited {
                action is Resume
            } else {
                action is RefuseContinue
            },
            DebuggerCommand::Backtrace => if has_inferior && !exited {
                action is ShowBacktrace
            } else {
                action is RefuseBacktrace
            },
            DebuggerCommand::BreakPoint(Some(place)) => {
                &&& action matches DebuggerAction::SetBreakpoint(target)
                &&& place@.len() > 0 && place@[0] == '*' ==> match address_of(place@.skip(1)) {
                    Some(a) => target == BreakpointTarget::Address(a as usize),
                    None => target is Invalid,
                }
                &&& !(place@.len() > 0 && place@[0] == '*') ==> match unsigned_of(place@, 10) {
                    Some(n) => target == BreakpointTarget::Line(n as usize),
                    None => target matches BreakpointTarget::Function(name) && name@ == place@,
                }
            },
            DebuggerCommand::BreakPoint(None) => action is ShowBreakpointUsage,
        },
{
    match command {
        DebuggerCommand::Quit => DebuggerAction::Quit { kill_first: has_inferior },
        DebuggerCommand::Run(args) => DebuggerAction::Start { kill_first: has_inferior, args },
        DebuggerCommand::Continue => {
            if !has_inferior || exited {
                DebuggerAction::RefuseContinue
            } else {
                DebuggerAction::Resume
            }
        },
        DebuggerCommand::Backtrace => {
            if !has_inferior || exited {
                DebuggerAction::RefuseBacktrace
            } else {
                DebuggerAction::ShowBacktrace
            }
        },
        DebuggerCommand::BreakPoint(place) => match place {
            Some(arg) => DebuggerAction::SetBreakpoint(breakpoint_target(arg.as_str())),
            None => DebuggerAction::ShowBreakpointUsage,
        },
    }
}

} // verus!
