//! A tic-tac-toe engine for a tabular Q-learning agent: the board and its
//! rules, tactical analysis, action selection and the bookkeeping of one
//! self-play training episode.

pub mod board;
pub mod policy;
pub mod trainer;
