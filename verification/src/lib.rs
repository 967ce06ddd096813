//! Rewrites the aborting extraction calls of a program, `unwrap` and
//! `unwrap_err`, into calls that carry the place in the source where they
//! were written, so that a failure reports that place.
//!
//! The rewriting works on a syntax tree ([`syntax`]) and is done by the tree
//! folder ([`folder`]), which uses the attribute filter ([`attributes`]), the
//! call-site synthesizer ([`synthesizer`]) and the qualified-path builder
//! ([`paths`]). A second engine ([`tokens`]) does a narrower rewriting on a
//! flat sequence of tokens. The rewritten calls use the extension traits of
//! [`extensions`] and the call site of [`call_site`]. What holds of the
//! rewriting as a whole is proved in [`laws`].

pub mod attributes;
pub mod call_site;
pub mod error;
pub mod extensions;
pub mod folder;
pub mod laws;
pub mod mode;
pub mod names;
pub mod paths;
pub mod span;
pub mod synthesizer;
pub mod syntax;
pub mod tokens;

pub use attributes::should_rewrite;
pub use call_site::CallSite;
pub use error::RewriteError;
pub use extensions::{err_message, none_message, ok_message, UnwrapErrExt, UnwrapExt};
pub use folder::{rewrite_unwraps, RewriteUnwraps};
pub use mode::{parse_mode, Mode};
pub use paths::{build_collaborator_path, build_extension_path};
pub use span::Span;
pub use synthesizer::{build_template, call_site_expr, override_spans};
pub use syntax::{Annotation, Node, NodeKind, QualifiedPath};
pub use tokens::{rewrite_unwraps_tokens, Delimiter, Spacing, TokenNode, TokenTree};
