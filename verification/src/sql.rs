use crate::path::{FilePath, PathView};
use crate::text::{optional_text, same_text, texts};
use vstd::prelude::*;
use vstd::string::*;

verus! {

/// A value in a database.
pub enum SqlValue {
    Null,
    Integer(i64),
    /// A floating-point number, by its bits.
    Real(u64),
    Text(String),
    Blob(Vec<u8>),
}

/// What a value in a database is.
#[verifier::ext_equal]
pub enum SqlView {
    Null,
    Integer(i64),
    Real(u64),
    Text(Seq<char>),
    Blob(Seq<u8>),
}

impl View for SqlValue {
    type V = SqlView;

    open spec fn view(&self) -> SqlView {
        match *self {
            SqlValue::Null => SqlView::Null,
            SqlValue::Integer(i) => SqlView::Integer(i),
            SqlValue::Real(bits) => SqlView::Real(bits),
            SqlValue::Text(s) => SqlView::Text(s@),
            SqlValue::Blob(bytes) => SqlView::Blob(bytes@),
        }
    }
}

impl Clone for SqlValue {
    fn clone(&self) -> (res: SqlValue)
        ensures
            res@ == self@,
    {
        match self {
            SqlValue::Null => SqlValue::Null,
            SqlValue::Integer(i) => SqlValue::Integer(*i),
            SqlValue::Real(bits) => SqlValue::Real(*bits),
            SqlValue::Text(s) => SqlValue::Text(s.clone()),
            SqlValue::Blob(bytes) => {
                let copy: Vec<u8> = bytes.clone();
                assert(copy@ =~= bytes@);
                SqlValue::Blob(copy)
            },
        }
    }
}

/// The views of a list of values.
pub open spec fn values_view(values: Seq<SqlValue>) -> Seq<SqlView> {
    Seq::new(values.len(), |i: int| values[i]@)
}

/// How many seconds to wait for a database that another process has locked.
pub const BUSY_TIMEOUT_SECS: u64 = 5;

/// A statement for a database, with the values of its parameters.
pub struct Statement {
    pub db: FilePath,
    pub read_only: bool,
    pub sql: String,
    pub params: Vec<SqlValue>,
}

/// What a statement for a database is.
#[verifier::ext_equal]
pub struct StatementView {
    pub db: PathView,
    pub read_only: bool,
    pub sql: Seq<char>,
    pub params: Seq<SqlView>,
}

impl View for Statement {
    type V = StatementView;

    open spec fn view(&self) -> StatementView {
        StatementView {
            db: self.db@,
            read_only: self.read_only,
            sql: self.sql@,
            params: values_view(self.params@),
        }
    }
}

/// The rows that a query gave: up to its end, or up to an error.
pub struct Rows {
    pub columns: Vec<String>,
    pub rows: Vec<Vec<SqlValue>>,
    pub error: Option<String>,
}

/// What the rows that a query gave are.
#[verifier::ext_equal]
pub struct RowsView {
    pub columns: Seq<Seq<char>>,
    pub rows: Seq<Seq<SqlView>>,
    pub error: Option<Seq<char>>,
}

/// The views of a list of rows.
pub open spec fn rows_view(rows: Seq<Vec<SqlValue>>) -> Seq<Seq<SqlView>> {
    Seq::new(rows.len(), |i: int| values_view(rows[i]@))
}

impl View for Rows {
    type V = RowsView;

    open spec fn view(&self) -> RowsView {
        RowsView {
            columns: texts(self.columns@),
            rows: rows_view(self.rows@),
            error: optional_text(self.error),
        }
    }
}

impl RowsView {
    /// The first value of the first row.
    pub open spec fn first_value(self) -> Option<SqlView> {
        if self.rows.len() > 0 && self.rows[0].len() > 0 {
            Some(self.rows[0][0])
        } else {
            None
        }
    }

    /// Whether a row has the text `name` in second place.
    pub open spec fn names_column(self, name: Seq<char>) -> bool {
        exists|i: int|
            0 <= i < self.rows.len() && #[trigger] self.rows[i].len() > 1 && self.rows[i][1]
                == SqlView::Text(name)
    }
}

impl Rows {
    /// The first value of the first row.
    pub fn first_value<'a>(&'a self) -> (res: Option<&'a SqlValue>)
        ensures
            match res {
                Some(value) => self@.first_value() == Some(value@),
                None => self@.first_value() is None,
            },
    {
        if self.rows.len() > 0 && self.rows[0].len() > 0 {
            assert(self@.rows[0][0] == self.rows@[0]@[0]@);
            Some(&self.rows[0][0])
        } else {
            None
        }
    }

    /// Whether a row has the text `name` in second place.
    pub fn names_column(&self, name: &str) -> (res: bool)
        ensures
            res == self@.names_column(name@),
    {
        let mut i: usize = 0;
        while i < self.rows.len()
            invariant
                i <= self.rows.len(),
                forall|j: int|
                    0 <= j < i ==> !(#[trigger] self@.rows[j].len() > 1 && self@.rows[j][1]
                        == SqlView::Text(name@)),
            decreases self.rows.len() - i,
        {
            if self.rows[i].len() > 1 {
                assert(self@.rows[i as int][1] == self.rows@[i as int]@[1]@);
                match &self.rows[i][1] {
                    SqlValue::Text(s) => {
                        if same_text(s.as_str(), name) {
                            assert(self@.rows[i as int].len() > 1);
                            return true;
                        }
                    },
                    _ => {},
                }
            }
            i += 1;
        }
        false
    }
}

/// The question whether a database has a table.
pub open spec fn table_query(db: PathView, read_only: bool, table: Seq<char>) -> StatementView {
    StatementView {
        db,
        read_only,
        sql: "SELECT EXISTS(SELECT 1 FROM sqlite_master WHERE type='table' AND name=?1)"@,
        params: seq![SqlView::Text(table)],
    }
}

/// Whether a value says that there is such a table.
pub open spec fn is_one(value: Option<SqlView>) -> bool {
    value == Some(SqlView::Integer(1))
}

/// The question whether a database has a table.
pub fn table_statement(db: &FilePath, read_only: bool, table: &str) -> (res: Statement)
    ensures
        res@ == table_query(db@, read_only, table@),
{
    let mut params: Vec<SqlValue> = Vec::new();
    params.push(SqlValue::Text(table.to_string()));
    assert(values_view(params@) =~= seq![SqlView::Text(table@)]);
    Statement {
        db: db.clone(),
        read_only,
        sql: "SELECT EXISTS(SELECT 1 FROM sqlite_master WHERE type='table' AND name=?1)".to_string(),
        params,
    }
}

/// Whether a value says that there is such a table.
pub fn says_one(value: Option<&SqlValue>) -> (res: bool)
    ensures
        res == is_one(
            match value {
                Some(v) => Some(v@),
                None => None,
            },
        ),
{
    match value {
        Some(SqlValue::Integer(n)) => *n == 1,
        _ => false,
    }
}

/// The query for the columns of a table; its rows name them in second place.
pub open spec fn columns_of_query(db: PathView, table: Seq<char>) -> StatementView {
    StatementView {
        db,
        read_only: true,
        sql: "PRAGMA table_info("@ + table + ")"@,
        params: Seq::empty(),
    }
}

/// The query that tells whether a table has a column.
pub fn columns_statement(db: &FilePath, table: &str) -> (res: Statement)
    ensures
        res@ == columns_of_query(db@, table@),
{
    let mut sql: String = "PRAGMA table_info(".to_string();
    sql.append(table);
    sql.append(")");
    let params: Vec<SqlValue> = Vec::new();
    assert(values_view(params@) =~= Seq::empty());
    Statement { db: db.clone(), read_only: true, sql, params }
}

} // verus!
