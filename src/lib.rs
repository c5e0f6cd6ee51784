//! Reading and writing `.tool-versions` documents: an ordered list of tools,
//! each with its version specifiers, kept together with every comment of the
//! file so that editing the data leaves the rest of the text untouched.
//! Beside it, the Markdown documentation page of the version manager's
//! command line.

pub mod canonical;
pub mod ordered_map;
pub mod platform;
pub mod render_help;
pub mod text;
pub mod tool_versions;

pub use render_help::{CommandHelp, RenderHelp};
pub use tool_versions::{ConfigFileType, PluginSource, ToolVersions};
