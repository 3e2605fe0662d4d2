//! Daily check-in scoring engine: a day-window state machine, the event
//! dispatcher that owns it, the scoreboard aggregator, the connection
//! supervisor, and the decisions of the leaderboard request handler.

pub mod platform;
pub mod daycycle;
pub mod types;
pub mod text;
pub mod slackinfo;
pub mod scoreboard;
pub mod runner;
pub mod supervisor;
pub mod denghandler;
pub mod command;
