//! Latency estimation for abstract pipelined dataflow graphs.
//!
//! An operation is known only by two numbers: its initiation interval (the
//! fewest cycles between the starts of two successive iterations) and its
//! latency (the cycles from the start of an iteration to its results becoming
//! visible). This crate holds the places where timing and synchronisation are
//! decided:
//!
//! * [`nodes`]: what one operation does in each iteration, as a function from
//!   its state and what the runtime reports to the next state and the action
//!   that the runtime has to perform;
//! * [`runs`]: what holds of every run of such a node: when its tokens become
//!   visible, that none is lost or made up, that it closes its outputs once;
//! * [`stimulus`]: the source that feeds an entry node a fixed number of
//!   tokens;
//! * [`network`]: how a table of operations and a table of links become a
//!   wired set of nodes with stimulus and sink attachments at the boundary;
//! * [`topology`]: what holds of every network wired so.
//!
//! The discrete-event runtime that owns the channels and the virtual clock is
//! not part of this crate: it performs the actions and reports what it saw.

pub mod network;
pub mod nodes;
pub mod runs;
pub mod stimulus;
pub mod topology;
