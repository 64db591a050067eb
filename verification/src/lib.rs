//! Verified core of a cofounder-matching service: questionnaire scoring,
//! profile validation, match scoring and the decisions around messaging,
//! swiping and authentication.
pub mod text;
pub mod error;
pub mod vocab;
pub mod timezone;
pub mod profiles;
pub mod questions;
pub mod assessment;
pub mod scoring;
pub mod deck;
pub mod messaging;
pub mod moderation;
pub mod swipes;
pub mod users;
pub mod tokens;
pub mod auth;
pub mod config;
pub mod mailer;
