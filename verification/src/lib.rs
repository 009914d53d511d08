//! Rendering and session-planning logic for persistent terminal sessions in
//! documents: ANSI cell models, HTML/LaTeX/Typst/Markdown/OpenXML/ODF
//! renderers, key-name translation and output post-processing.

pub mod text;
pub mod color;
pub mod terminal_line;
pub mod renderer;
pub mod keymap;
pub mod protocol;
pub mod session;
pub mod pattern;
pub mod markdown;
pub mod latex;
pub mod typst;
pub mod docx;
pub mod odt;
pub mod error;
pub mod plan;
pub mod lines;
pub mod screen;
pub mod cell;
pub mod record;
