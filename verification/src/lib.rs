//! A local bge-m3 embedding server's verified core: the Open Notebook
//! connector protocol, the manual-setup snippets, the server's request and
//! ordering rules, and the design tokens and screen rules of its window.

pub mod text;
pub mod connectors;
pub mod notebook_laws;
pub mod server;
pub mod theme;
pub mod gui;
pub mod notebook_model;
