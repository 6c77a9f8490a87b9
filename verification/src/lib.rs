//! V.I.B.E turns a double clap into a work setup: the active routine's
//! apps launch, its URLs and documents open, and every window lands in the
//! screen region the user chose.
//!
//! This library holds the decisions behind that, each with its contract:
//! - `engine`: clap events in fixed-point units and double-clap pairing;
//! - `pipeline`: the detection loop's state (quiet gate, exactly-two rule,
//!   pause and sensitivity handling) and the engine's controls;
//! - `routine`: routines, the routine document and its store, and the
//!   execution log;
//! - `action`: actions, how a routine's actions are planned and reported;
//! - `layout`: regions, displays, process and window probes, placement;
//! - `tray`: the menu-bar texts and menu, trigger cooldown;
//! - `poc`: the command-line prototypes' actions, matcher and arguments;
//! - `text`: string helpers stated over character sequences.
pub mod action;
pub mod catalog;
pub mod engine;
pub mod layout;
pub mod pipeline;
pub mod poc;
pub mod routine;
pub mod text;
pub mod tray;
