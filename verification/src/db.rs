//! Database access used by the core.
//!
//! The core owns no SQL of its own beyond the publish command of the
//! notification fabric; row queries and inserts live at the I/O boundary.
//! The connection type of the `postgres` crate is declared opaquely here so
//! the verified code can carry it and issue single commands through it.

use vstd::prelude::*;

verus! {

#[verifier::external_type_specification]
#[verifier::external_body]
pub struct ExClient(postgres::Client);

#[verifier::external_type_specification]
#[verifier::external_body]
pub struct ExPgError(postgres::Error);

/// A database handle for requests from in- or outside a request handler.
pub struct DBQuery(pub postgres::Client);

/// Relies on postgres's `Client::execute`: runs the given SQL command with no
/// parameters and returns the number of rows the server reports affected.
#[verifier::external_body]
pub(crate) fn db_execute(client: &mut postgres::Client, cmd: &str) -> (r: Result<
    u64,
    postgres::Error,
>) {
    client.execute(cmd, &[])
}

} // verus!
