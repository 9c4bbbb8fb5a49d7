//! Planning-book core: the rules and computations behind a local-first task,
//! project, study and knowledge-base planner.
pub mod text;
pub mod names;
pub mod errors;
pub mod numbers;
pub mod backup;
pub mod tasks;
pub mod knowledge;
pub mod documents;
pub mod search;
pub mod yuque;
pub mod storage;
