//! The decisions of a load-balancing reverse proxy, and a few small tools,
//! all stated and proved with Verus.
//!
//! The proxy spreads client connections over a pool of upstream servers,
//! takes upstreams out of rotation when they fail, brings them back through
//! active health checks, and limits the requests of each client per minute.
//! Sockets, timers, tasks and locks belong to the program around this
//! library; the library holds the state and decides.
//!
//! - `pool`: the shared state, healthy and failed upstreams, request counts.
//! - `counts`: the table of request counts per client.
//! - `rate_limit`: the fixed-window limit per client.
//! - `selector`: which upstream to dial, and what a failed dial changes.
//! - `health`: what a health probe must observe, and what a round of probes
//!   changes.
//! - `session`: one client session as a state machine.
//! - `config`: the settings and their defaults.
//! - `number`, `text`: reading numbers, comparing and copying strings.
//!
//! Beside the proxy:
//!
//! - `debugger_command`, `debugger`, `inferior`: the prompt of a small
//!   debugger, its breakpoints, and the byte patching they rest on.
//! - `linked_list`: a singly linked stack.
//! - `warmup`: element-wise addition and removal of repeated elements.
//! - `hangman`: a word-guessing game.
//! - `rwc`: counting lines, words and letters.
//! - `parallel_map`: ordering the results of a map that ran on several
//!   workers.

pub mod config;
pub mod counts;
pub mod debugger;
pub mod debugger_command;
pub mod hangman;
pub mod health;
pub mod inferior;
pub mod linked_list;
pub mod number;
pub mod parallel_map;
pub mod pool;
pub mod rate_limit;
pub mod rwc;
pub mod selector;
pub mod session;
pub mod text;
pub mod warmup;
