pub mod batch;
pub mod calls;
pub mod clock;
pub mod columns;
pub mod error;
pub mod intermediate;
pub mod laws;
pub mod memory;
pub mod mode;
pub mod no_grouping;
pub mod peek;
pub mod prefix;
pub mod promises;
pub mod run;
pub mod text;
