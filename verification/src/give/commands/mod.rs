//! One builder per command: from the intent's fields to the command text. Catalog checks
//! (rejecting made-up ids) are the dispatcher's business, not theirs.

pub mod attribute;
pub mod clone;
pub mod effect;
pub mod enchant;
pub mod execute;
pub mod fill;
pub mod nbt;
pub mod particle;
pub mod say;
pub mod scoreboard;
pub mod setblock;
pub mod summon;
pub mod tp;
