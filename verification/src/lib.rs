//! URL objects and query-parameter lists with the semantics that web
//! browsers give to `URL` and `URLSearchParams`, for a host that reaches them
//! across a language boundary, and the rules of the tools around that host.
//!
//! - [`jsurl`]: a [`jsurl::JSUrl`] is a parsed, normalised URL, and a
//!   [`jsurl::JSUrlSearchParams`] is an ordered list of name/value pairs.
//!   The list of a URL is bound to it: a change of either one shows in the
//!   other.
//! - [`pairs`], [`order`], [`sorting`]: the model of a pair list, the order
//!   of names by UTF-16 code units, and the stable sort in that order.
//! - [`limits`]: the sizes up to which a text is handed to the `url` crate.
//! - [`marshal`]: the strings, views and sequences that cross the boundary.
//! - [`outside`]: the calls into the `url` crate and tree-sitter, with what
//!   is taken on trust of them.
//! - [`regex`]: the regular expression literals of a script, and the block
//!   that compiles them ahead of time.
//! - [`upload`], [`asn`]: the rules of the file upload, and which keys are
//!   RSA keys.
pub mod asn;
pub mod jsurl;
pub mod limits;
pub mod marshal;
pub mod order;
pub mod outside;
pub mod pairs;
pub mod regex;
pub mod sorting;
pub mod upload;
