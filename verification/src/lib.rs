//! Core of an interactive "suggestion wizard" for building blocking-policy
//! configurations: a data model for block policies, validated schedule
//! building, tolerant time/date parsing, fuzzy ranking of filesystem
//! candidates, and a string-encoded settings serializer.

pub mod blocksettings;
pub mod browse;
pub mod convert;
pub mod ctsettings;
pub mod decode;
pub mod digits;
pub mod historydeque;
pub mod matchstring;
pub mod policyset;
pub mod schedule;
pub mod serialize;
pub mod strutil;
pub mod wizard;
