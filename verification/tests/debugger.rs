use balancebeam::debugger::{
    breakpoint_target, parse_address, plan, BreakpointTarget, Breakpoints, DebuggerAction,
    TRAP_BYTE,
};
use balancebeam::debugger_command::DebuggerCommand;
use balancebeam::inferior::{
    align_addr_to_word, patch_byte, AfterStep, Inferior, Resume, Status,
};

fn parse(line: &str) -> Option<DebuggerCommand> {
    let tokens: Vec<&str> = line.split_whitespace().collect();
    DebuggerCommand::from_tokens(&tokens)
}

#[test]
fn quit_words() {
    for line in ["q", "quit", "quit now"] {
        assert!(matches!(parse(line), Some(DebuggerCommand::Quit)));
    }
}

#[test]
fn run_takes_every_further_word() {
    for word in ["r", "run"] {
        match parse(&format!("{} a bb ccc", word)) {
            Some(DebuggerCommand::Run(args)) => assert_eq!(args, vec!["a", "bb", "ccc"]),
            _ => panic!("a run command"),
        }
        match parse(word) {
            Some(DebuggerCommand::Run(args)) => assert!(args.is_empty()),
            _ => panic!("a run command"),
        }
    }
}

#[test]
fn continue_and_backtrace_words() {
    for line in ["c", "cont", "continue", "c 1"] {
        assert!(matches!(parse(line), Some(DebuggerCommand::Continue)));
    }
    for line in ["bt", "back", "backtrace"] {
        assert!(matches!(parse(line), Some(DebuggerCommand::Backtrace)));
    }
}

#[test]
fn break_takes_the_second_word() {
    for word in ["b", "break", "breakpoint"] {
        match parse(&format!("{} *0x401136 more", word)) {
            Some(DebuggerCommand::BreakPoint(Some(place))) => assert_eq!(place, "*0x401136"),
            _ => panic!("a breakpoint command"),
        }
        assert!(matches!(parse(word), Some(DebuggerCommand::BreakPoint(None))));
    }
}

#[test]
fn other_words_are_no_command() {
    for line in ["", "x", "Q", "quitt", "ru", "runn", "co", "conti", "btt", "bac", "br", "breakpoints", "help"] {
        if line.is_empty() {
            continue;
        }
        assert!(parse(line).is_none(), "{:?}", line);
    }
}

#[test]
fn addresses_are_hexadecimal_with_or_without_prefix() {
    assert_eq!(parse_address("0x401136"), Some(0x401136));
    assert_eq!(parse_address("0X401136"), Some(0x401136));
    assert_eq!(parse_address("401136"), Some(0x401136));
    assert_eq!(parse_address("0xFF"), Some(255));
    assert_eq!(parse_address("ff"), Some(255));
    assert_eq!(parse_address("0"), Some(0));
    assert_eq!(parse_address("0x0"), Some(0));
    assert_eq!(parse_address("0x+1"), Some(1));
}

#[test]
fn what_is_no_address_is_refused() {
    for bad in ["", "0x", "x", "0xg", "0x0x1", "12 ", "-1", "0x-1", "main"] {
        assert_eq!(parse_address(bad), None, "{:?}", bad);
    }
}

#[test]
fn breakpoint_argument_names_an_address_a_line_or_a_function() {
    assert!(matches!(breakpoint_target("*0x401136"), BreakpointTarget::Address(0x401136)));
    assert!(matches!(breakpoint_target("*401136"), BreakpointTarget::Address(0x401136)));
    assert!(matches!(breakpoint_target("*"), BreakpointTarget::Invalid));
    assert!(matches!(breakpoint_target("*main"), BreakpointTarget::Invalid));
    assert!(matches!(breakpoint_target("15"), BreakpointTarget::Line(15)));
    assert!(matches!(breakpoint_target("+15"), BreakpointTarget::Line(15)));
    assert!(matches!(breakpoint_target("0"), BreakpointTarget::Line(0)));
    match breakpoint_target("main") {
        BreakpointTarget::Function(name) => assert_eq!(name, "main"),
        _ => panic!("a function name"),
    }
    match breakpoint_target("0x401136") {
        BreakpointTarget::Function(name) => assert_eq!(name, "0x401136"),
        _ => panic!("a function name"),
    }
    match breakpoint_target("") {
        BreakpointTarget::Function(name) => assert_eq!(name, ""),
        _ => panic!("a function name"),
    }
}

#[test]
fn breakpoints_are_numbered_in_order() {
    let mut bps = Breakpoints::new();
    assert_eq!(bps.len(), 0);
    assert_eq!(bps.add(0x1000), 0);
    assert_eq!(bps.add(0x2000), 1);
    assert_eq!(bps.add(0x1000), 2);
    assert_eq!(bps.len(), 3);
    assert_eq!(bps.address(0), 0x1000);
    assert_eq!(bps.address(1), 0x2000);
    assert_eq!(bps.address(2), 0x1000);
}

#[test]
fn a_stop_right_behind_a_trap_is_a_hit() {
    let mut bps = Breakpoints::new();
    bps.add(0x1000);
    assert_eq!(bps.hit(0x1001), None);
    bps.record(0x1000, 0x55);
    assert_eq!(bps.hit(0x1001), Some((0x1000, 0x55)));
    assert_eq!(bps.hit(0x1000), None);
    assert_eq!(bps.hit(0x1002), None);
    assert_eq!(bps.hit(0), None);
    bps.record(0x1000, 0x48);
    assert_eq!(bps.hit(0x1001), Some((0x1000, 0x48)));
    bps.record(usize::MAX - 1, 1);
    assert_eq!(bps.hit(usize::MAX), Some((usize::MAX - 1, 1)));
    assert_eq!(TRAP_BYTE, 0xcc);
}

#[test]
fn commands_that_need_a_live_process() {
    assert!(matches!(plan(DebuggerCommand::Continue, true, false), DebuggerAction::Resume));
    assert!(matches!(plan(DebuggerCommand::Continue, false, false), DebuggerAction::RefuseContinue));
    assert!(matches!(plan(DebuggerCommand::Continue, true, true), DebuggerAction::RefuseContinue));
    assert!(matches!(plan(DebuggerCommand::Backtrace, true, false), DebuggerAction::ShowBacktrace));
    assert!(matches!(plan(DebuggerCommand::Backtrace, false, true), DebuggerAction::RefuseBacktrace));
    assert!(matches!(plan(DebuggerCommand::Backtrace, true, true), DebuggerAction::RefuseBacktrace));
}

#[test]
fn run_and_quit_kill_the_process_that_is_there() {
    match plan(DebuggerCommand::Run(vec![String::from("x")]), true, false) {
        DebuggerAction::Start { kill_first, args } => {
            assert!(kill_first);
            assert_eq!(args, vec!["x"]);
        }
        _ => panic!("a start"),
    }
    assert!(matches!(
        plan(DebuggerCommand::Run(Vec::new()), false, false),
        DebuggerAction::Start { kill_first: false, .. }
    ));
    assert!(matches!(plan(DebuggerCommand::Quit, true, true), DebuggerAction::Quit { kill_first: true }));
    assert!(matches!(plan(DebuggerCommand::Quit, false, false), DebuggerAction::Quit { kill_first: false }));
}

#[test]
fn breakpoint_command_is_planned_by_its_argument() {
    assert!(matches!(
        plan(DebuggerCommand::BreakPoint(None), true, false),
        DebuggerAction::ShowBreakpointUsage
    ));
    assert!(matches!(
        plan(DebuggerCommand::BreakPoint(Some(String::from("*0x10"))), false, false),
        DebuggerAction::SetBreakpoint(BreakpointTarget::Address(16))
    ));
    assert!(matches!(
        plan(DebuggerCommand::BreakPoint(Some(String::from("12"))), false, false),
        DebuggerAction::SetBreakpoint(BreakpointTarget::Line(12))
    ));
}

#[test]
fn addresses_are_rounded_down_to_the_word() {
    let word = std::mem::size_of::<usize>();
    assert_eq!(align_addr_to_word(0), 0);
    assert_eq!(align_addr_to_word(1), 0);
    assert_eq!(align_addr_to_word(word - 1), 0);
    assert_eq!(align_addr_to_word(word), word);
    assert_eq!(align_addr_to_word(word + 1), word);
    assert_eq!(align_addr_to_word(0x401136), 0x401136 & !(word - 1));
    assert_eq!(align_addr_to_word(usize::MAX), usize::MAX - (word - 1));
    for addr in 0..1000usize {
        assert_eq!(align_addr_to_word(addr), addr & (-(word as isize) as usize));
    }
}

#[test]
fn one_byte_of_a_word_is_patched() {
    let word: u64 = 0x8877_6655_4433_2211;
    let p = patch_byte(word, 0, 0xcc);
    assert_eq!(p.orig_byte, 0x11);
    assert_eq!(p.updated_word, 0x8877_6655_4433_22cc);
    let p = patch_byte(word, 3, 0xcc);
    assert_eq!(p.orig_byte, 0x44);
    assert_eq!(p.updated_word, 0x8877_6655_cc33_2211);
    let p = patch_byte(word, 7, 0xcc);
    assert_eq!(p.orig_byte, 0x88);
    assert_eq!(p.updated_word, 0xcc77_6655_4433_2211);
    let p = patch_byte(u64::MAX, 5, 0);
    assert_eq!(p.orig_byte, 0xff);
    assert_eq!(p.updated_word, 0xffff_00ff_ffff_ffff);
}

#[test]
fn patching_back_restores_the_word() {
    let word: u64 = 0x0123_4567_89ab_cdef;
    for offset in 0..8 {
        let trapped = patch_byte(word, offset, 0xcc);
        let restored = patch_byte(trapped.updated_word, offset, trapped.orig_byte);
        assert_eq!(restored.orig_byte, 0xcc);
        assert_eq!(restored.updated_word, word);
    }
}

#[test]
fn a_fresh_process_just_continues() {
    let mut inferior = Inferior::new();
    assert!(!inferior.is_exited());
    assert_eq!(inferior.continues(), Resume::Continue);
}

#[test]
fn a_process_that_hit_a_breakpoint_is_stepped_over_it_first() {
    let mut bps = Breakpoints::new();
    bps.add(0x1000);
    bps.record(0x1000, 0x55);
    let mut inferior = Inferior::new();
    assert_eq!(inferior.continues(), Resume::Continue);
    assert_eq!(inferior.stopped(Status::Stopped(5, 0x1001), &bps), Some((0x1000, 0x55)));
    assert_eq!(inferior.continues(), Resume::StepOver(0x1000));
    assert_eq!(inferior.stepped(0x1000, Status::Stopped(5, 0x1004)), AfterStep::Rearm(0x1000));
    // stopped somewhere else: not parked
    assert_eq!(inferior.stopped(Status::Stopped(2, 0x2000), &bps), None);
    assert_eq!(inferior.continues(), Resume::Continue);
    assert!(!inferior.is_exited());
}

#[test]
fn an_exit_is_remembered() {
    let bps = Breakpoints::new();
    let mut inferior = Inferior::new();
    assert_eq!(inferior.stopped(Status::Signaled(9), &bps), None);
    assert!(!inferior.is_exited());
    assert_eq!(inferior.stopped(Status::Exited(3), &bps), None);
    assert!(inferior.is_exited());
    let mut other = Inferior::new();
    assert_eq!(other.stepped(0x10, Status::Exited(0)), AfterStep::Finished);
    assert!(other.is_exited());
    let mut third = Inferior::new();
    assert_eq!(third.stepped(0x10, Status::Signaled(11)), AfterStep::Continue);
    assert_eq!(third.wait(Status::Exited(1)), Status::Exited(1));
    assert!(third.is_exited());
}
