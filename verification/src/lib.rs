//! A playlist service's verified core: the script language that rewrites
//! playlist entries (grammar, parser, validation, evaluation, values), and the
//! rules its configuration has to satisfy.
//!
//! Every function states what it returns in terms of pure definitions, and is
//! proved to meet that statement. The few operations taken from outside
//! without proof are named as such where they stand.
pub mod accessor;
pub mod api_proxy;
pub mod api_proxy_dto;
pub mod ast;
pub mod error;
pub mod eval;
pub mod grammar;
pub mod healthcheck;
pub mod ip_check;
pub mod json_filter;
pub mod laws;
pub mod lexer;
pub mod logging;
pub mod mapping;
pub mod number;
pub mod number_laws;
pub mod parser;
pub mod regex_engine;
pub mod script;
pub mod semantics;
pub mod text;
pub mod trakt;
pub mod validation;
pub mod value;
pub mod value_order;
pub mod web_auth;
pub mod xmltv;
pub mod xtream;
