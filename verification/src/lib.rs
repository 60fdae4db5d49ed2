//! The core of a markdown viewer for the terminal.
//!
//! A document is classified line by line into styled display rows and
//! references to images and diagrams ([`blocks`], [`inline`]); with what the
//! resolvers of those references brought back it becomes a sequence of
//! content elements ([`elements`]), each a number of rows high. The rows are
//! indexed ([`rows`]), shown through a viewport ([`scroll`]), searched
//! ([`matches`]) and reached by heading ([`toc`]); [`viewer`] holds the state
//! of all this and says how a key changes it, and [`status`] what the frame
//! around the content says.
//!
//! Beside the core stand the helpers of the other front ends: search in
//! plain text ([`search`]), sections ([`sections`]), HTML and the page of the
//! web view ([`html`], [`page`]), image references ([`images`]), diagram
//! sources ([`mermaid`]) and the names of the backends ([`cli`]). Painting,
//! files, the network and the rendering of images and diagrams are left to
//! the program around the library.

pub mod blocks;
pub mod cli;
pub mod elements;
pub mod html;
pub mod images;
pub mod inline;
pub mod matches;
pub mod mermaid;
pub mod page;
pub mod rows;
pub mod scroll;
pub mod search;
pub mod sections;
pub mod status;
pub mod style;
pub mod text;
pub mod toc;
pub mod viewer;
