//! Rust type syntax, as read by `syn`.
//!
//! Type references travel through the library as source text. Whether a text
//! is a list of types, and whether two texts denote the same type, are
//! questions of Rust's grammar. They are put to `syn`, and nothing is claimed
//! of its answers: which lexer reads a text and which printer writes one
//! depend on the process that runs them. The rules that work on the answers
//! are functions of their own, which take the answers as arguments.
use syn_helpers::syn;
use syn_helpers::CommaSeparatedList;
use syn_helpers::ToTokens;
use vstd::prelude::*;

verus! {

/// `syn::Error`, the failure that `syn`'s parsers report. Nothing is read
/// from it here.
#[verifier::external_type_specification]
#[verifier::external_body]
pub struct ExSynError(syn::Error);

/// Calls `syn::parse_str` for a `CommaSeparatedList` of `syn::Type` and
/// renders each type it read through `ToTokens`. Trusted to return; nothing
/// is claimed of what it returns.
#[verifier::external_body]
pub(crate) fn parse_type_list(arguments: &str) -> (parsed: Result<Vec<String>, syn::Error>) {
    let list = syn::parse_str::<CommaSeparatedList<syn::Type>>(arguments)?;
    Ok(list.into_iter().map(|ty| ty.to_token_stream().to_string()).collect())
}

/// Calls `syn::parse_str` for a `syn::Type` on each text and compares the two
/// types with `syn`'s own `==`; `None` where `syn` takes one of the texts for
/// no type. Trusted to return; nothing is claimed of what it returns.
#[verifier::external_body]
pub(crate) fn same_type_text(left: &str, right: &str) -> (same: Option<bool>) {
    let left_type = syn::parse_str::<syn::Type>(left).ok()?;
    let right_type = syn::parse_str::<syn::Type>(right).ok()?;
    Some(left_type == right_type)
}

} // verus!
