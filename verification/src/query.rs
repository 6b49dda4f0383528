//! The decisions of the database query command: which statements are read
//! as queries, how the client's parameters become SQL values, and which
//! execution error means that the statement returned rows.

use vstd::prelude::*;
use crate::json::JsonValue;
use crate::text::{
    chars_of, contains, has_infix, has_prefix, signed_decimal, signed_decimal_string,
    starts_with_chars, to_uppercase, trim, trim_str, uppercase,
};

verus! {

/// A statement is run as a query when, trimmed and upper-cased, it starts
/// with `SELECT`.
pub open spec fn is_select(sql: Seq<char>) -> bool {
    has_prefix(uppercase(trim(sql)), "SELECT"@)
}

/// Whether a statement is run as a query.
pub fn is_select_query(sql: &str) -> (res: bool)
    ensures
        res == is_select(sql@),
{
    let t = trim_str(sql);
    let up = to_uppercase(t.as_str());
    let cs = chars_of(up.as_str());
    let select = chars_of("SELECT");
    starts_with_chars(cs.as_slice(), select.as_slice())
}

/// The error text by which the database says that a statement executed as
/// an update returned rows.
pub open spec fn returned_rows_error(msg: Seq<char>) -> bool {
    has_infix(msg, "Execute returned results"@)
}

/// Whether an execution error means that the statement returned rows, so
/// that it is to be run again as a query.
pub fn returned_rows(msg: &str) -> (res: bool)
    ensures
        res == returned_rows_error(msg@),
{
    contains(msg, "Execute returned results")
}

/// A parameter as the client sent it, a JSON value: a number with its value
/// as a 64-bit integer when it is one, whether it has a floating-point value,
/// and its text; arrays and objects by their JSON text.
#[derive(Debug, Clone, PartialEq)]
pub enum ParamSource {
    Null,
    Bool(bool),
    Number { integer: Option<i64>, has_float: bool, text: String },
    Str(String),
    Compound(String),
}

/// A value bound to a statement parameter. `Real` stands for the number's
/// floating-point value, which the caller binds.
#[derive(Debug, Clone, PartialEq)]
pub enum SqlParam {
    Null,
    Integer(i64),
    Real,
    Text(String),
}

/// How a client parameter is bound: null as NULL, a boolean as 1 or 0, an
/// integer as an integer, any other number as a real (or as its text when it
/// has no floating-point value), a string as text, and anything else as its
/// JSON text.
pub open spec fn sql_param_of(p: ParamSource) -> SqlParam {
    match p {
        ParamSource::Null => SqlParam::Null,
        ParamSource::Bool(b) => SqlParam::Integer(if b { 1 } else { 0 }),
        ParamSource::Number { integer, has_float, text } => match integer {
            Some(i) => SqlParam::Integer(i),
            None => if has_float {
                SqlParam::Real
            } else {
                SqlParam::Text(text)
            },
        },
        ParamSource::Str(s) => SqlParam::Text(s),
        ParamSource::Compound(t) => SqlParam::Text(t),
    }
}

/// How a client parameter is bound.
pub fn sql_param(p: ParamSource) -> (res: SqlParam)
    ensures
        res == sql_param_of(p),
{
    match p {
        ParamSource::Null => SqlParam::Null,
        ParamSource::Bool(b) => SqlParam::Integer(if b { 1 } else { 0 }),
        ParamSource::Number { integer, has_float, text } => match integer {
            Some(i) => SqlParam::Integer(i),
            None => if has_float {
                SqlParam::Real
            } else {
                SqlParam::Text(text)
            },
        },
        ParamSource::Str(s) => SqlParam::Text(s),
        ParamSource::Compound(t) => SqlParam::Text(t),
    }
}

/// What is done first with a statement: run it as a query, or execute it
/// as an update.
#[derive(Debug, Clone, Copy, PartialEq, Eq)]
pub enum DbStep {
    Query,
    Execute,
}

/// What is done first with a statement.
pub fn first_step(sql: &str) -> (res: DbStep)
    ensures
        res is Query <==> is_select(sql@),
{
    if is_select_query(sql) {
        DbStep::Query
    } else {
        DbStep::Execute
    }
}

/// A value read from a result column. `Real` carries the JSON text of the
/// floating-point value.
#[derive(Debug, Clone, PartialEq)]
pub enum SqlCell {
    Null,
    Integer(i64),
    Real(String),
    Text(String),
    Blob,
}

/// A column value as JSON: null, a number, a string, and `"BLOB"` for a
/// blob.
pub open spec fn cell_json_holds(c: SqlCell, j: JsonValue) -> bool {
    match c {
        SqlCell::Null => j is Null,
        SqlCell::Integer(i) => j matches JsonValue::Number(t) && t@ == signed_decimal(i as int),
        SqlCell::Real(text) => j matches JsonValue::Number(t) && t@ == text@,
        SqlCell::Text(s) => j matches JsonValue::Str(t) && t@ == s@,
        SqlCell::Blob => j matches JsonValue::Str(t) && t@ == "BLOB"@,
    }
}

/// A column value as JSON.
pub fn cell_json(c: SqlCell) -> (res: JsonValue)
    ensures
        cell_json_holds(c, res),
{
    match c {
        SqlCell::Null => JsonValue::Null,
        SqlCell::Integer(i) => JsonValue::Number(signed_decimal_string(i)),
        SqlCell::Real(t) => JsonValue::Number(t),
        SqlCell::Text(s) => JsonValue::Str(s),
        SqlCell::Blob => JsonValue::Str(String::from_str("BLOB")),
    }
}

/// A result row as a JSON object: one member per column, named by the
/// column, in column order.
pub open spec fn row_json_holds(columns: Seq<(String, SqlCell)>, j: JsonValue) -> bool {
    j matches JsonValue::Object(entries) && entries@.len() == columns.len() && forall|k: int|
        0 <= k < columns.len() ==> (#[trigger] entries@[k]).0@ == columns[k].0@ && cell_json_holds(
            columns[k].1,
            entries@[k].1,
        )
}

/// A result row as a JSON object.
pub fn row_json(columns: Vec<(String, SqlCell)>) -> (res: JsonValue)
    ensures
        row_json_holds(columns@, res),
{
    let ghost cols = columns@;
    let mut entries: Vec<(String, JsonValue)> = Vec::new();
    let mut rest = columns;
    let mut taken: Vec<(String, SqlCell)> = Vec::new();
    let mut i: usize = 0;
    let n = rest.len();
    while i < n
        invariant
            n == cols.len(),
            i <= n,
            entries@.len() == i,
            forall|k: int|
                0 <= k < i ==> (#[trigger] entries@[k]).0@ == cols[k].0@ && cell_json_holds(
                    cols[k].1,
                    entries@[k].1,
                ),
            rest@ == cols.subrange(i as int, n as int),
        decreases n - i,
    {
        let (name, cell) = rest.remove(0);
        proof {
            assert(name == cols[i as int].0);
            assert(cell == cols[i as int].1);
        }
        let j = cell_json(cell);
        entries.push((name, j));
        proof {
            assert(rest@ =~= cols.subrange(i + 1, n as int));
        }
        i = i + 1;
    }
    JsonValue::Object(entries)
}

fn member_pair(key: &str, value: JsonValue) -> (res: (String, JsonValue))
    ensures
        res.0@ == key@,
        res.1 == value,
{
    (String::from_str(key), value)
}

/// `j` is a JSON number written as `text`.
pub open spec fn number_is(j: JsonValue, text: Seq<char>) -> bool {
    match j {
        JsonValue::Number(t) => t@ == text,
        _ => false,
    }
}

/// `j` is an object whose first member is `success: true` and whose second
/// member is `data` with a value that `data_holds` accepts.
pub open spec fn success_with(j: JsonValue, data_holds: spec_fn(JsonValue) -> bool) -> bool {
    match j {
        JsonValue::Object(e) => {
            &&& e@.len() == 2
            &&& e@[0].0@ == "success"@
            &&& e@[0].1 == JsonValue::Bool(true)
            &&& e@[1].0@ == "data"@
            &&& data_holds(e@[1].1)
        },
        _ => false,
    }
}

/// The answer to a query: success, and the rows as data.
pub open spec fn rows_response_holds(rows: Seq<JsonValue>, j: JsonValue) -> bool {
    success_with(
        j,
        |d: JsonValue|
            match d {
                JsonValue::Array(a) => a@ == rows,
                _ => false,
            },
    )
}

/// The answer to a query.
pub fn rows_response(rows: Vec<JsonValue>) -> (res: JsonValue)
    ensures
        rows_response_holds(rows@, res),
{
    let mut e: Vec<(String, JsonValue)> = Vec::new();
    e.push(member_pair("success", JsonValue::Bool(true)));
    e.push(member_pair("data", JsonValue::Array(rows)));
    JsonValue::Object(e)
}

/// The answer to an update: success, and as data the id of the last
/// inserted row and the number of changed rows.
pub open spec fn update_response_holds(last_rowid: i64, changes: usize, j: JsonValue) -> bool {
    success_with(
        j,
        |d: JsonValue|
            match d {
                JsonValue::Object(m) => {
                    &&& m@.len() == 2
                    &&& m@[0].0@ == "lastInsertRowid"@
                    &&& number_is(m@[0].1, signed_decimal(last_rowid as int))
                    &&& m@[1].0@ == "changes"@
                    &&& number_is(m@[1].1, crate::text::decimal(changes as nat))
                },
                _ => false,
            },
    )
}

/// The answer to an update.
pub fn update_response(last_rowid: i64, changes: usize) -> (res: JsonValue)
    ensures
        update_response_holds(last_rowid, changes, res),
{
    let mut d: Vec<(String, JsonValue)> = Vec::new();
    d.push(member_pair("lastInsertRowid", JsonValue::Number(signed_decimal_string(last_rowid))));
    d.push(
        member_pair("changes", JsonValue::Number(crate::text::decimal_string(changes as u64))),
    );
    let mut e: Vec<(String, JsonValue)> = Vec::new();
    e.push(member_pair("success", JsonValue::Bool(true)));
    e.push(member_pair("data", JsonValue::Object(d)));
    JsonValue::Object(e)
}

/// What follows an update: its answer, running the statement again as a
/// query, or failing.
#[derive(Debug, PartialEq)]
pub enum AfterExecute {
    Done(JsonValue),
    QueryAgain,
    Failed(String),
}

/// What follows an update, by its result: the id of the last inserted row
/// and the number of changes, or the error's text. An error saying that
/// the statement returned rows sends it back as a query.
pub fn after_execute(result: Result<(i64, usize), String>) -> (res: AfterExecute)
    ensures
        match result {
            Ok((rowid, changes)) => res matches AfterExecute::Done(j) && update_response_holds(
                rowid,
                changes,
                j,
            ),
            Err(msg) => if returned_rows_error(msg@) {
                res is QueryAgain
            } else {
                res matches AfterExecute::Failed(m) && m@ == "执行失败: "@ + msg@
            },
        },
{
    match result {
        Ok((rowid, changes)) => AfterExecute::Done(update_response(rowid, changes)),
        Err(msg) => {
            if returned_rows(msg.as_str()) {
                AfterExecute::QueryAgain
            } else {
                let mut m = String::from_str("执行失败: ");
                m.append(msg.as_str());
                AfterExecute::Failed(m)
            }
        },
    }
}

/// The stages of the query command that can fail, each reported with its
/// own prefix.
#[derive(Debug, Clone, Copy, PartialEq, Eq)]
pub enum DbStage {
    Connect,
    Prepare,
    Run,
    Row,
}

/// The prefix of a failure at a stage.
pub open spec fn stage_prefix(s: DbStage) -> Seq<char> {
    match s {
        DbStage::Connect => "数据库连接失败: "@,
        DbStage::Prepare => "SQL 准备失败: "@,
        DbStage::Run => "查询执行失败: "@,
        DbStage::Row => "行解析失败: "@,
    }
}

/// The error reported for a failure at a stage.
pub fn stage_failure(s: DbStage, detail: &str) -> (res: String)
    ensures
        res@ == stage_prefix(s) + detail@,
{
    let mut m = match s {
        DbStage::Connect => String::from_str("数据库连接失败: "),
        DbStage::Prepare => String::from_str("SQL 准备失败: "),
        DbStage::Run => String::from_str("查询执行失败: "),
        DbStage::Row => String::from_str("行解析失败: "),
    };
    m.append(detail);
    m
}

} // verus!
