//! The profiles that Alma keeps of people: Markdown files with a frontmatter.
pub mod cards;
pub mod frontmatter;
pub mod laws;
pub mod profile;
pub mod profile_laws;
