//! Git notes next to the lines they annotate.

pub mod annotate;
pub mod blame;
pub mod blame_laws;
pub mod bytes;
pub mod cache;
pub mod decimal;
pub mod fetch;
pub mod git;
pub mod git_formats;
pub mod hints;
pub mod json;
pub mod launch;
pub mod line_laws;
pub mod lines;
pub mod lookup;
pub mod mcp;
pub mod mcp_laws;
pub mod notes;
pub mod path_laws;
pub mod paths;
pub mod reply_laws;
pub mod report_laws;
pub mod request_laws;
pub mod sha;
pub mod shown_laws;
pub mod text;
pub mod text_laws;
pub mod tool_laws;
pub mod tools;
pub mod view_laws;
pub mod words;
