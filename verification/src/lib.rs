//! Event registration service: form schemas, answer checking, seat decisions,
//! verification codes and export layout, with their contracts proved by Verus.

pub mod text;
pub mod json;
pub mod error;
pub mod domain;
pub mod codes;
pub mod events;
pub mod registration;
pub mod export;
pub mod workbook;
pub mod access;
