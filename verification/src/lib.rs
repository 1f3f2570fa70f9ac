//! The logic of a tournament schedule: times, teams, the timeline and its editor, the match forms,
//! and the clock that paces a match.

pub mod card;
pub mod clock;
pub mod days;
pub mod deps;
pub mod drag;
pub mod fields;
pub mod grid;
pub mod group_form;
pub mod lanes;
pub mod match_form;
pub mod moment;
pub mod order;
pub mod overlay;
pub mod page;
pub mod schedule_time;
pub mod scoreboard;
pub mod start_match;
pub mod table;
pub mod teams;
pub mod text;
pub mod time_sync;
pub mod timeline;
pub mod tournament_home;
pub mod types;
