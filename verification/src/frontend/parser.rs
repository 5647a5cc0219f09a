//! Parsing SQL text into `sqlparser`'s syntax tree. The parsing is
//! `sqlparser`'s, with its generic dialect; this module picks the statement.
use vstd::prelude::*;
use vstd::string::*;

use sqlparser::ast::Statement as SqlTree;

verus! {

#[verifier::external_type_specification]
#[verifier::external_body]
pub struct ExSqlTree(SqlTree);

/// What `sqlparser`'s `Parser::parse_sql` with the generic dialect makes of a
/// text: its statements in order, or the text of the error it reports.
pub uninterp spec fn sql_parsed(sql: Seq<char>) -> Result<Seq<SqlTree>, Seq<char>>;

/// Calls `sqlparser::parser::Parser::parse_sql` with `GenericDialect`; its
/// error is turned into the error's text. The result, a function of the text
/// alone, is named by `sql_parsed`.
#[verifier::external_body]
fn parse_sql(sql: &str) -> (r: Result<Vec<SqlTree>, String>)
    ensures
        match r {
            Ok(v) => sql_parsed(sql@) == Ok::<Seq<SqlTree>, Seq<char>>(v@),
            Err(m) => sql_parsed(sql@) == Err::<Seq<SqlTree>, Seq<char>>(m@),
        },
{
    match sqlparser::parser::Parser::parse_sql(&sqlparser::dialect::GenericDialect {}, sql) {
        Ok(v) => Ok(v),
        Err(e) => Err(e.to_string()),
    }
}

/// Parses the first SQL statement of `sql`: the parser's error text when the
/// text does not parse, "empty input" when it holds no statement.
pub fn parse(sql: &str) -> (r: Result<SqlTree, String>)
    ensures
        match sql_parsed(sql@) {
            Ok(v) => if v.len() == 0 {
                r matches Err(m) && m@ == "empty input"@
            } else {
                r == Ok::<SqlTree, String>(v[0])
            },
            Err(m) => r matches Err(e) && e@ == m,
        },
{
    match parse_sql(sql) {
        Ok(mut v) => {
            if v.len() == 0 {
                Err(String::from_str("empty input"))
            } else {
                Ok(v.remove(0))
            }
        },
        Err(m) => Err(m),
    }
}

} // verus!
