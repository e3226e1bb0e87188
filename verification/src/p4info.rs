//! Value types shared with the pipeline-description helpers.

pub mod table;
