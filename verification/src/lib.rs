//! # Html templating
//!
//! A graphical designer makes a html page that looks nice: plain, valid
//! markup, nothing in it is dynamic. The programmer then puts comments and
//! `data-` attributes of a few reserved forms into it, which a browser does
//! not show. When the page is rendered, each of them asks the application,
//! by a name, for what stands in the place of the node or attribute that
//! follows it:
//!
//! ```html
//! <p><!--wt_new_text-->old text</p>
//! <p><!--wn_new_nodes--><div id="old_node">...</div></p>
//! <p><!--wb_is_shown--><span>shown or not</span></p>
//! <input data-wt-value="wt_new_text" value="old text" />
//! <input data-on-keyup="wl_nickname_on_keyup" />
//! ```
//!
//! The application implements [`html_template_mod::HtmlTemplating`] for the
//! struct that knows the answers, and gets `render_template`, which reads a
//! template and returns the tree of nodes that it stands for.
//!
//! ## The modules
//!
//! - [`html_template_mod`]: the trait `HtmlTemplating`.
//! - [`tree_builder`]: how the tree is built from the tokens of a template,
//!   one token at a time, told in full.
//! - [`frame`]: one element while it is being filled, with what is pending
//!   in it.
//! - [`directive`]: the reserved forms of comments and attributes.
//! - [`namespace`]: html and svg elements in one template.
//! - [`xml_escape`]: the five XML control characters.
//! - [`token`]: the tokens of a template and the reader that yields them.
//! - [`node`]: the tree.
//! - [`error`]: what can go wrong.
//! - [`laws`]: what holds of the building of a tree, whatever the template.
//! - [`text`]: work on the characters of strings.

pub mod directive;
pub mod error;
pub mod frame;
pub mod html_template_mod;
pub mod laws;
pub mod namespace;
pub mod node;
pub mod text;
pub mod token;
pub mod tree_builder;
pub mod xml_escape;
