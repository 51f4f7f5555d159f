pub mod blame;
pub mod git;
pub mod model;
pub mod report;
pub mod text;
