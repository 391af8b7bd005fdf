//! The calls into the `mysql` driver.
//!
//! Everything here is believed, not proved. What a statement returns depends
//! on the database, so nothing is claimed of any result; the callers in
//! [`crate::db::connection`] are verified for every result there can be.

use crate::handlers::players::Player;
use vstd::prelude::*;

verus! {

/// `mysql::Pool`: a pool of connections, carried as an opaque value.
#[verifier::external_type_specification]
#[verifier::external_body]
pub struct ExPool(mysql::Pool);

/// `mysql::PooledConn`: one connection to the database, carried as an
/// opaque value.
#[verifier::external_type_specification]
#[verifier::external_body]
pub struct ExPooledConn(mysql::PooledConn);

/// `mysql::Error`: the driver's error, carried as an opaque value.
#[verifier::external_type_specification]
#[verifier::external_body]
pub struct ExDriverError(mysql::Error);

/// `mysql::Params`: the parameters of a statement, carried as an opaque
/// value.
#[verifier::external_type_specification]
#[verifier::external_body]
pub struct ExParams(mysql::Params);

/// The value of one parameter of a statement.
#[derive(Debug, PartialEq, Eq)]
pub enum SqlValue {
    Text(Vec<u8>),
    Int(i64),
}

/// One named parameter of a statement.
#[derive(Debug, PartialEq, Eq)]
pub struct SqlParam {
    pub name: String,
    pub value: SqlValue,
}

/// No two parameters have the same name.
pub open spec fn names_distinct(params: Seq<SqlParam>) -> bool {
    forall|i: int, j: int|
        0 <= i < j < params.len() ==> (#[trigger] params[i]).name@ != (#[trigger] params[j]).name@
}

/// `mysql::Params::from` on a vector of names and values: the named
/// parameters of a statement. The driver panics on a name given twice, so
/// the names must differ.
#[verifier::external_body]
pub(crate) fn named_params(params: &Vec<SqlParam>) -> mysql::Params
    requires
        names_distinct(params@),
{
    let mut pairs: Vec<(String, mysql::Value)> = Vec::new();
    for p in params.iter() {
        let value = match &p.value {
            SqlValue::Text(text) => mysql::Value::from(text.as_slice()),
            SqlValue::Int(number) => mysql::Value::from(*number),
        };
        pairs.push((p.name.clone(), value));
    }
    mysql::Params::from(pairs)
}

/// `mysql::Pool::new` on a connection URL: a pool of connections to the
/// database that the URL names, or the driver's error.
#[verifier::external_body]
pub(crate) fn open_pool(database_url: &str) -> Result<mysql::Pool, mysql::Error> {
    mysql::Pool::new(database_url)
}

/// `mysql::Pool::get_conn`: a connection from the pool, or the driver's
/// error.
#[verifier::external_body]
pub(crate) fn pool_connection(pool: &mysql::Pool) -> Result<mysql::PooledConn, mysql::Error> {
    pool.get_conn()
}

/// `Queryable::exec_first_opt` with a row of one nullable text column: runs
/// the statement and looks at the first row. `Ok(None)` if there is no row,
/// else whether the row could be read as that column.
#[verifier::external_body]
pub(crate) fn exec_first_row(
    conn: &mut mysql::PooledConn,
    statement: &str,
    params: mysql::Params,
) -> Result<Option<bool>, mysql::Error> {
    let row = mysql::prelude::Queryable::exec_first_opt::<Option<String>, _, _>(
        conn,
        statement,
        params,
    )?;
    Ok(row.map(|cell| cell.is_ok()))
}

/// `Queryable::exec_map_opt` with rows of an integer, a text and an integer:
/// runs the statement and makes a player of each row, in order; `None`
/// stands for a row that could not be read so.
#[verifier::external_body]
pub(crate) fn exec_map_players(
    conn: &mut mysql::PooledConn,
    statement: &str,
    params: mysql::Params,
) -> Result<Vec<Option<Player>>, mysql::Error> {
    mysql::prelude::Queryable::exec_map_opt::<(i64, String, i64), _, _, _, _>(
        conn,
        statement,
        params,
        |row| row.ok().map(|(id, username, score)| Player::new(id, username, score)),
    )
}

/// `Queryable::exec_drop`: runs the statement and drops what it returns.
#[verifier::external_body]
pub(crate) fn exec_drop(
    conn: &mut mysql::PooledConn,
    statement: &str,
    params: mysql::Params,
) -> Result<(), mysql::Error> {
    mysql::prelude::Queryable::exec_drop(conn, statement, params)
}

/// `mysql::Conn::last_insert_id`: the id that the last statement of the
/// connection generated, zero if it generated none.
#[verifier::external_body]
pub(crate) fn last_insert_id(conn: &mysql::PooledConn) -> u64 {
    conn.last_insert_id()
}

/// The driver's own text for an error, as `Display` writes it.
#[verifier::external_body]
pub(crate) fn error_text(error: &mysql::Error) -> String {
    format!("{}", error)
}

} // verus!
