//! The types of the `notion` crate that pass through the collectors.
//!
//! The verifier sees none of their fields: a value of one of them is only
//! stored, compared in specifications, and handed on.

use vstd::prelude::*;

verus! {

/// `notion::NotionApi`, the client that talks to the Notion API.
#[verifier::external_type_specification]
#[verifier::external_body]
pub struct ExNotionApi(notion::NotionApi);

/// `notion::ids::DatabaseId`, the identifier of a database.
#[verifier::external_type_specification]
#[verifier::external_body]
pub struct ExDatabaseId(notion::ids::DatabaseId);

/// `notion::models::Database`, a database as the API describes it.
#[verifier::external_type_specification]
#[verifier::external_body]
pub struct ExDatabase(notion::models::Database);

/// `notion::models::Page`, an entry of a database.
#[verifier::external_type_specification]
#[verifier::external_body]
pub struct ExPage(notion::models::Page);

} // verus!
