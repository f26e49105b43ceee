//! Runs pyrometer over a collection of smart contracts and reports how it fared.
//!
//! The library holds what is decided and computed: which contracts are
//! analysed ([`collect`]) and from which files ([`sources`]), how pyrometer is
//! run on one ([`invocation`]) and how the runs are paced ([`dispatch`]), what
//! the output of a run says ([`output`]), and how results are written down
//! ([`results`]) and counted ([`receive`], [`tally`]). Files, processes and the
//! terminal are the business of the program around it.

pub mod collect;
pub mod dispatch;
pub mod exit_type;
pub mod invocation;
pub mod metadata;
pub mod order;
pub mod output;
pub mod receive;
pub mod results;
pub mod seconds;
pub mod settings;
pub mod sources;
pub mod tally;
pub mod text;
