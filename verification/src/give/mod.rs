//! Command building for the AI mode: versions and shared helpers, catalog lookups, and one
//! builder per Minecraft command.

pub mod builder;
pub mod catalog;
pub mod commands;
pub mod form;
pub mod item;
pub mod component;
pub mod dispatch;
pub mod json;
pub mod number;
pub mod parse;
