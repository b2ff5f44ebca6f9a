//! The decisions of a Tak engine's front ends: the TEI line protocol, and the search for road
//! threats in positions and game records.
//!
//! The engine itself (the rules of the game, the tree search and the proof search) is handed in
//! as functions. Contracts speak of what these functions can return, so they hold of whatever
//! engine is behind them.

pub mod outcome;
pub mod text;
pub mod number;
pub mod text_laws;
pub mod error;
pub mod protocol;
pub mod go_command;
pub mod search_position;
pub mod position_string;
pub mod position_laws;
pub mod settings;
pub mod protocol_laws;
pub mod session;
pub mod session_laws;
pub mod search;
pub mod search_laws;
pub mod report;
pub mod report_laws;
pub mod size_tag;
pub mod size_laws;
pub mod threat;
pub mod threat_laws;
pub mod annotate;
pub mod annotation_laws;
pub mod call_laws;
