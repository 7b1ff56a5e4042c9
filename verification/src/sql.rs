//! Statements for the database, and the rows that it answers with.

use vstd::prelude::*;

verus! {

/// A value that is bound to a statement or found in a row.
#[derive(Debug)]
pub enum SqlValue {
    Null,
    Integer(i64),
    Text(String),
    /// A value of a type that no table uses.
    Other,
}

/// What a value says.
pub enum SqlView {
    Null,
    Integer(i64),
    Text(Seq<char>),
    Other,
}

impl View for SqlValue {
    type V = SqlView;

    open spec fn view(&self) -> SqlView {
        match self {
            SqlValue::Null => SqlView::Null,
            SqlValue::Integer(n) => SqlView::Integer(*n),
            SqlValue::Text(s) => SqlView::Text(s@),
            SqlValue::Other => SqlView::Other,
        }
    }
}

/// What a list of values says.
pub open spec fn values(list: Seq<SqlValue>) -> Seq<SqlView> {
    list.map_values(|v: SqlValue| v@)
}

/// An optional text as a value.
pub open spec fn optional(s: Option<String>) -> SqlView {
    match s {
        Some(s) => SqlView::Text(s@),
        None => SqlView::Null,
    }
}

/// A statement with the values that are bound to its parameters, in order.
#[derive(Debug)]
pub struct Statement {
    pub sql: &'static str,
    pub params: Vec<SqlValue>,
}

impl Statement {
    /// Whether this is the given statement with the given values.
    pub open spec fn is(self, sql: Seq<char>, params: Seq<SqlView>) -> bool {
        self.sql@ == sql && values(self.params@) == params
    }

    /// A statement without parameters.
    pub fn plain(sql: &'static str) -> (r: Self)
        ensures
            r.is(sql@, Seq::empty()),
    {
        let r = Statement { sql, params: Vec::new() };
        assert(values(r.params@) =~= Seq::empty());
        r
    }

    /// Binds one more text.
    pub fn text(self, s: &str) -> (r: Self)
        ensures
            r.sql@ == self.sql@,
            values(r.params@) == values(self.params@).push(SqlView::Text(s@)),
    {
        let mut params = self.params;
        let ghost before = params@;
        params.push(SqlValue::Text(s.to_owned()));
        assert(values(params@) =~= values(before).push(SqlView::Text(s@)));
        Statement { sql: self.sql, params }
    }

    /// Binds one more text, or null where there is none.
    pub fn optional(self, s: &Option<String>) -> (r: Self)
        ensures
            r.sql@ == self.sql@,
            values(r.params@) == values(self.params@).push(optional(*s)),
    {
        let mut params = self.params;
        let ghost before = params@;
        let value = match s {
            Some(s) => SqlValue::Text(s.clone()),
            None => SqlValue::Null,
        };
        params.push(value);
        assert(values(params@) =~= values(before).push(optional(*s)));
        Statement { sql: self.sql, params }
    }

    /// Binds one more integer.
    pub fn integer(self, n: i64) -> (r: Self)
        ensures
            r.sql@ == self.sql@,
            values(r.params@) == values(self.params@).push(SqlView::Integer(n)),
    {
        let mut params = self.params;
        let ghost before = params@;
        params.push(SqlValue::Integer(n));
        assert(values(params@) =~= values(before).push(SqlView::Integer(n)));
        Statement { sql: self.sql, params }
    }
}

// ---- reading columns ----

/// The text in a column, if there is one.
pub fn text_at(row: &Vec<SqlValue>, column: usize) -> (r: Option<String>)
    ensures
        r.is_some() <==> column < row@.len() && row@[column as int]@ is Text,
        r.is_some() ==> row@[column as int]@ == SqlView::Text(r.unwrap()@),
{
    if column < row.len() {
        match &row[column] {
            SqlValue::Text(s) => Some(s.clone()),
            _ => None,
        }
    } else {
        None
    }
}

/// The text in a column that may be null, if it is one of the two.
pub fn optional_at(row: &Vec<SqlValue>, column: usize) -> (r: Option<Option<String>>)
    ensures
        r.is_some() <==> column < row@.len() && (row@[column as int]@ is Text
            || row@[column as int]@ is Null),
        r.is_some() ==> row@[column as int]@ == optional(r.unwrap()),
{
    if column < row.len() {
        match &row[column] {
            SqlValue::Text(s) => Some(Some(s.clone())),
            SqlValue::Null => Some(None),
            _ => None,
        }
    } else {
        None
    }
}

/// The integer in a column, if there is one.
pub fn integer_at(row: &Vec<SqlValue>, column: usize) -> (r: Option<i64>)
    ensures
        r.is_some() <==> column < row@.len() && row@[column as int]@ is Integer,
        r.is_some() ==> row@[column as int]@ == SqlView::Integer(r.unwrap()),
{
    if column < row.len() {
        match &row[column] {
            SqlValue::Integer(n) => Some(*n),
            _ => None,
        }
    } else {
        None
    }
}

/// Whether a column holds an integer that fits into 32 bits without a sign.
pub open spec fn is_u32(v: SqlView) -> bool {
    v matches SqlView::Integer(n) && 0 <= n <= u32::MAX
}

/// The integer in a column, if there is one that fits into 32 bits without a sign.
pub fn u32_at(row: &Vec<SqlValue>, column: usize) -> (r: Option<u32>)
    ensures
        r.is_some() <==> column < row@.len() && is_u32(row@[column as int]@),
        r.is_some() ==> row@[column as int]@ == SqlView::Integer(r.unwrap() as i64),
{
    match integer_at(row, column) {
        Some(n) => {
            if 0 <= n && n <= 0xffff_ffff {
                Some(n as u32)
            } else {
                None
            }
        },
        None => None,
    }
}

/// Whether a column holds an integer that fits into 32 bits with a sign.
pub open spec fn is_i32(v: SqlView) -> bool {
    v matches SqlView::Integer(n) && i32::MIN <= n <= i32::MAX
}

/// Whether the integer in a column is not zero, if there is one that fits into 32 bits
/// with a sign.
pub fn flag_at(row: &Vec<SqlValue>, column: usize) -> (r: Option<bool>)
    ensures
        r.is_some() <==> column < row@.len() && is_i32(row@[column as int]@),
        r.is_some() ==> r.unwrap() == (row@[column as int]@ != SqlView::Integer(0)),
{
    match integer_at(row, column) {
        Some(n) => {
            if -0x8000_0000 <= n && n <= 0x7fff_ffff {
                Some(n != 0)
            } else {
                None
            }
        },
        None => None,
    }
}

// ---- reading many rows ----

/// Whether a list gives what each of the rows holds, in order.
pub open spec fn reads_all<T, F: Fn(&Vec<SqlValue>) -> Option<T>>(
    list: Seq<T>,
    rows: Seq<Vec<SqlValue>>,
    read: F,
) -> bool {
    &&& list.len() == rows.len()
    &&& forall|i: int|
        0 <= i < list.len() ==> call_ensures(read, (&rows[i],), Some(#[trigger] list[i]))
}

/// Reads what each of the rows holds. One row that cannot be read spoils all.
pub fn read_all<T, F: Fn(&Vec<SqlValue>) -> Option<T>>(rows: &Vec<Vec<SqlValue>>, read: F) -> (r:
    Option<Vec<T>>)
    requires
        forall|row: &Vec<SqlValue>| #[trigger] call_requires(read, (row,)),
    ensures
        r.is_some() ==> reads_all(r.unwrap()@, rows@, read),
        r.is_none() ==> exists|i: int|
            0 <= i < rows@.len() && call_ensures(read, (&#[trigger] rows@[i],), None),
{
    let mut list: Vec<T> = Vec::new();
    let mut n: usize = 0;
    while n < rows.len()
        invariant
            n <= rows@.len(),
            list@.len() == n,
            forall|row: &Vec<SqlValue>| #[trigger] call_requires(read, (row,)),
            forall|i: int|
                0 <= i < n ==> call_ensures(read, (&rows@[i],), Some(#[trigger] list@[i])),
        decreases rows.len() - n,
    {
        match read(&rows[n]) {
            Some(item) => {
                list.push(item);
            },
            None => {
                assert(call_ensures(read, (&rows@[n as int],), None));
                return None;
            },
        }
        n = n + 1;
    }
    Some(list)
}

/// Whether a list gives, in order, what the rows at the given places hold, and the other rows
/// cannot be read.
pub open spec fn reads_those_at<T, F: Fn(&Vec<SqlValue>) -> Option<T>>(
    places: Seq<int>,
    list: Seq<T>,
    rows: Seq<Vec<SqlValue>>,
    read: F,
) -> bool {
    &&& places.len() == list.len()
    &&& forall|i: int, j: int|
        0 <= i < j < places.len() ==> #[trigger] places[i] < #[trigger] places[j]
    &&& forall|i: int| 0 <= i < places.len() ==> 0 <= #[trigger] places[i] < rows.len()
    &&& forall|i: int|
        0 <= i < list.len() ==> call_ensures(
            read,
            (&rows[places[i]],),
            Some(#[trigger] list[i]),
        )
    &&& forall|k: int|
        0 <= k < rows.len() && !places.contains(k) ==> call_ensures(
            read,
            (&#[trigger] rows[k],),
            None,
        )
}

/// Reads what the rows hold, in order, and passes over those that cannot be read.
pub fn read_readable<T, F: Fn(&Vec<SqlValue>) -> Option<T>>(
    rows: &Vec<Vec<SqlValue>>,
    read: F,
) -> (r: Vec<T>)
    requires
        forall|row: &Vec<SqlValue>| #[trigger] call_requires(read, (row,)),
    ensures
        exists|places: Seq<int>| reads_those_at(places, r@, rows@, read),
{
    let mut list: Vec<T> = Vec::new();
    let ghost mut places: Seq<int> = Seq::empty();
    let mut n: usize = 0;
    assert(reads_those_at(places, list@, rows@.take(0), read));
    while n < rows.len()
        invariant
            n <= rows@.len(),
            forall|row: &Vec<SqlValue>| #[trigger] call_requires(read, (row,)),
            reads_those_at(places, list@, rows@.take(n as int), read),
        decreases rows.len() - n,
    {
        let ghost before = rows@.take(n as int);
        let ghost now = rows@.take(n + 1);
        let ghost old_places = places;
        let ghost old_list = list@;
        match read(&rows[n]) {
            Some(item) => {
                list.push(item);
                proof {
                    places = places.push(n as int);
                    assert forall|k: int| 0 <= k < now.len() && !places.contains(k) implies
                        call_ensures(read, (&#[trigger] now[k],), None) by {
                        if k == n {
                            assert(places[old_places.len() as int] == k);
                        } else {
                            if old_places.contains(k) {
                                let i = choose|i: int|
                                    0 <= i < old_places.len() && old_places[i] == k;
                                assert(places[i] == k);
                            }
                            assert(before[k] == now[k]);
                        }
                    }
                    assert forall|i: int| 0 <= i < list@.len() implies call_ensures(
                        read,
                        (&now[places[i]],),
                        Some(#[trigger] list@[i]),
                    ) by {
                        if i < old_list.len() {
                            assert(list@[i] == old_list[i]);
                            assert(before[old_places[i]] == now[places[i]]);
                        }
                    }
                }
            },
            None => {
                proof {
                    assert forall|k: int| 0 <= k < now.len() && !places.contains(k) implies
                        call_ensures(read, (&#[trigger] now[k],), None) by {
                        if k < n {
                            assert(before[k] == now[k]);
                        }
                    }
                    assert forall|i: int| 0 <= i < list@.len() implies call_ensures(
                        read,
                        (&now[places[i]],),
                        Some(#[trigger] list@[i]),
                    ) by {
                        assert(before[places[i]] == now[places[i]]);
                    }
                }
            },
        }
        n = n + 1;
    }
    assert(rows@.take(n as int) =~= rows@);
    list
}

// ---- laws ----

/// A list of values says what its values say, one for one and in order.
pub proof fn law_values_are_those_of_the_list(list: Seq<SqlValue>)
    ensures
        values(list).len() == list.len(),
        forall|i: int| 0 <= i < list.len() ==> #[trigger] values(list)[i] == list[i]@,
{
}

/// A value says what was put into it.
pub proof fn law_values_say_what_is_in_them(n: i64, s: String)
    ensures
        SqlValue::Integer(n)@ == SqlView::Integer(n),
        SqlValue::Text(s)@ == SqlView::Text(s@),
        SqlValue::Null@ == SqlView::Null,
        SqlValue::Other@ == SqlView::Other,
{
}

/// A statement has one text, and its parameters are bound in one order.
pub proof fn law_statement_binds_in_order(s: Statement, sql: Seq<char>, params: Seq<SqlView>)
    ensures
        s.is(sql, params) ==> s.sql@ == sql && s.params@.len() == params.len() && forall|i: int|
            0 <= i < params.len() ==> (#[trigger] s.params@[i])@ == params[i],
        s.is(s.sql@, values(s.params@)),
{
    if s.is(sql, params) {
        assert forall|i: int| 0 <= i < params.len() implies (#[trigger] s.params@[i])@
            == params[i] by {
            assert(values(s.params@)[i] == params[i]);
        }
    }
}

/// A text that is there is stored as it is, an empty one too, and only one that is not there is
/// stored as null.
pub proof fn law_missing_text_is_null(s: Option<String>, t: String)
    ensures
        optional(s) is Null <==> s.is_none(),
        optional(Some(t)) == SqlView::Text(t@),
{
}

/// Which integers fit into 32 bits, without and with a sign.
pub proof fn law_small_integers(n: i64, v: SqlView)
    ensures
        is_u32(SqlView::Integer(n)) <==> 0 <= n <= 0xffff_ffff,
        is_i32(SqlView::Integer(n)) <==> -0x8000_0000 <= n <= 0x7fff_ffff,
        !(v is Integer) ==> !is_u32(v) && !is_i32(v),
{
}

/// What was read of all rows is one item for each row, read from it.
pub proof fn law_all_rows_are_read<T, F: Fn(&Vec<SqlValue>) -> Option<T>>(
    list: Seq<T>,
    rows: Seq<Vec<SqlValue>>,
    read: F,
    i: int,
)
    requires
        reads_all(list, rows, read),
    ensures
        list.len() == rows.len(),
        0 <= i < rows.len() ==> call_ensures(read, (&rows[i],), Some(list[i])),
{
}

/// What was read of the readable rows keeps their order, one item for each, and every row that
/// was passed over could not be read.
pub proof fn law_readable_rows_are_read<T, F: Fn(&Vec<SqlValue>) -> Option<T>>(
    places: Seq<int>,
    list: Seq<T>,
    rows: Seq<Vec<SqlValue>>,
    read: F,
    i: int,
    j: int,
)
    requires
        reads_those_at(places, list, rows, read),
    ensures
        places.len() == list.len(),
        0 <= i < list.len() ==> 0 <= places[i] < rows.len() && call_ensures(
            read,
            (&rows[places[i]],),
            Some(list[i]),
        ),
        0 <= i < j < list.len() ==> places[i] < places[j],
        0 <= j < rows.len() && !places.contains(j) ==> call_ensures(read, (&rows[j],), None),
{
}

} // verus!
