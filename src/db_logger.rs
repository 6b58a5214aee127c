use vstd::prelude::*;
use crate::log_line::{parse_line, parse_line_spec, LogRecord, RecordView};
use crate::text::{chars_of, trim, trim_bounds};

verus! {

#[verifier::external_type_specification]
#[verifier::external_body]
pub struct ExConnection(rusqlite::Connection);

#[verifier::external_type_specification]
#[verifier::external_body]
pub struct ExSqlError(rusqlite::Error);

/// Why the store refused a record.
#[derive(Debug)]
pub enum SinkError {
    Store(rusqlite::Error),
}

/// Complete lines found by appending `text` to `pending`, in order, and what
/// is left after the last line terminator.
pub open spec fn feed(pending: Seq<char>, text: Seq<char>) -> (Seq<Seq<char>>, Seq<char>)
    decreases text.len(),
{
    if text.len() == 0 {
        (Seq::empty(), pending)
    } else {
        let (lines, rest) = feed(pending, text.drop_last());
        if text.last() == '\n' {
            (lines.push(rest), Seq::empty())
        } else {
            (lines, rest.push(text.last()))
        }
    }
}

/// `r` is the record of `line`, for the clock reading that it carries.
pub open spec fn record_of(r: RecordView, line: Seq<char>) -> bool {
    r == parse_line_spec(line, r.timestamp)
}

/// `after` is `before` followed by one record of each of `lines`, in order.
pub open spec fn appended(before: Seq<RecordView>, after: Seq<RecordView>, lines: Seq<Seq<char>>) -> bool {
    &&& after.len() == before.len() + lines.len()
    &&& after.take(before.len() as int) == before
    &&& forall|i: int| 0 <= i < lines.len() ==> record_of(#[trigger] after[before.len() + i], lines[i])
}

/// The SQL statement that adds one row to `table`.
pub open spec fn insert_sql_spec(table: Seq<char>) -> Seq<char> {
    "INSERT INTO '"@ + table + "' (timestamp, level, username, message) VALUES (?, ?, ?, ?)"@
}

/// The SQL statement that creates `table` with the store's columns.
pub open spec fn create_table_sql_spec(table: Seq<char>) -> Seq<char> {
    "CREATE TABLE IF NOT EXISTS '"@ + table
        + "' (id INTEGER PRIMARY KEY AUTOINCREMENT, timestamp TEXT, level TEXT, username TEXT, message TEXT)"@
}

pub fn insert_sql(table: &str) -> (r: String)
    ensures
        r@ == insert_sql_spec(table@),
{
    let mut r = String::from_str("INSERT INTO '");
    r.append(table);
    r.append("' (timestamp, level, username, message) VALUES (?, ?, ?, ?)");
    r
}

pub fn create_table_sql(table: &str) -> (r: String)
    ensures
        r@ == create_table_sql_spec(table@),
{
    let mut r = String::from_str("CREATE TABLE IF NOT EXISTS '");
    r.append(table);
    r.append(
        "' (id INTEGER PRIMARY KEY AUTOINCREMENT, timestamp TEXT, level TEXT, username TEXT, message TEXT)",
    );
    r
}

/// Relies on `rusqlite::Connection::execute`: runs `sql` with four text
/// parameters and reports the store's answer.
#[verifier::external_body]
fn execute_row(conn: &rusqlite::Connection, sql: &str, p1: &str, p2: &str, p3: &str, p4: &str) -> (r:
    Result<usize, rusqlite::Error>) {
    conn.execute(sql, (p1, p2, p3, p4))
}

/// Relies on `chrono::Local::now` and its `Display`: the local wall-clock time
/// as text.
#[verifier::external_body]
fn clock_text() -> (r: String) {
    chrono::Local::now().to_string()
}

/// A byte-stream sink that cuts its input into lines and stores each line as
/// one structured row of `table`.
pub struct DBLogger {
    conn: rusqlite::Connection,
    table: String,
    buffer: Vec<char>,
    stored: Ghost<Seq<RecordView>>,
}

impl DBLogger {
    /// Text received after the last line terminator.
    pub closed spec fn pending(&self) -> Seq<char> {
        self.buffer@
    }

    /// Every record handed to the store and accepted by it, in order.
    pub closed spec fn stored(&self) -> Seq<RecordView> {
        self.stored@
    }

    pub closed spec fn table_name(&self) -> Seq<char> {
        self.table@
    }

    /// A sink over `conn` that adds rows to `table`, which must exist.
    pub fn new(conn: rusqlite::Connection, table: String) -> (r: DBLogger)
        ensures
            r.pending() == Seq::<char>::empty(),
            r.stored() == Seq::<RecordView>::empty(),
            r.table_name() == table@,
    {
        DBLogger { conn, table, buffer: Vec::new(), stored: Ghost(Seq::empty()) }
    }

    pub fn connection(&self) -> &rusqlite::Connection {
        &self.conn
    }

    pub fn table(&self) -> (r: &str)
        ensures
            r@ == self.table_name(),
    {
        self.table.as_str()
    }

    fn store(&mut self, line: &Vec<char>) -> (r: Result<(), SinkError>)
        ensures
            final(self).pending() == old(self).pending(),
            final(self).table_name() == old(self).table_name(),
            r is Ok ==> final(self).stored() == old(self).stored().push(
                final(self).stored().last(),
            ) && record_of(final(self).stored().last(), line@),
            r is Err ==> final(self).stored() == old(self).stored(),
    {
        let now = if line.len() < crate::log_line::MIN_STRUCTURED_LEN {
            clock_text()
        } else {
            String::new()
        };
        let rec: LogRecord = parse_line(line, now.as_str());
        let sql = insert_sql(self.table.as_str());
        match execute_row(
            &self.conn,
            sql.as_str(),
            rec.timestamp.as_str(),
            rec.level.as_str(),
            rec.actor.as_str(),
            rec.message.as_str(),
        ) {
            Ok(_) => {
                self.stored = Ghost(self.stored@.push(rec@));
                Ok(())
            },
            Err(e) => Err(SinkError::Store(e)),
        }
    }

    /// Stores one complete line as one record.
    pub fn insert_line(&mut self, line: &str) -> (r: Result<(), SinkError>)
        ensures
            final(self).pending() == old(self).pending(),
            r is Ok ==> appended(old(self).stored(), final(self).stored(), seq![line@]),
            r is Err ==> final(self).stored() == old(self).stored(),
    {
        let chars = chars_of(line);
        let r = self.store(&chars);
        proof {
            if r is Ok {
                assert(self.stored().take(old(self).stored().len() as int) =~= old(self).stored());
                assert(self.stored()[old(self).stored().len() as int] == self.stored().last());
            }
        }
        r
    }

    /// Appends `text`; stores each line that it completes, in order.
    pub fn write(&mut self, text: &str) -> (r: Result<(), SinkError>)
        ensures
            final(self).table_name() == old(self).table_name(),
            r is Ok ==> final(self).pending() == feed(old(self).pending(), text@).1 && appended(
                old(self).stored(),
                final(self).stored(),
                feed(old(self).pending(), text@).0,
            ),
            r is Err ==> exists|k: int|
                0 <= k < feed(old(self).pending(), text@).0.len() && appended(
                    old(self).stored(),
                    final(self).stored(),
                    #[trigger] feed(old(self).pending(), text@).0.take(k),
                ),
    {
        let chars = chars_of(text);
        let ghost start = self.pending();
        let ghost before = self.stored();
        let mut i: usize = 0;
        proof {
            assert(text@.take(0) =~= Seq::<char>::empty());
            assert(self.stored().take(before.len() as int) =~= before);
        }
        while i < chars.len()
            invariant
                i <= chars@.len(),
                chars@ == text@,
                self.table_name() == old(self).table_name(),
                start == old(self).pending(),
                before == old(self).stored(),
                self.pending() == feed(start, text@.take(i as int)).1,
                appended(before, self.stored(), feed(start, text@.take(i as int)).0),
            decreases chars@.len() - i,
        {
            let c = chars[i];
            let ghost lines = feed(start, text@.take(i as int)).0;
            let ghost mid = self.stored();
            assert(text@.take(i + 1).drop_last() =~= text@.take(i as int));
            assert(text@.take(i + 1).last() == c);
            if c == '\n' {
                let mut line: Vec<char> = Vec::new();
                std::mem::swap(&mut line, &mut self.buffer);
                match self.store(&line) {
                    Ok(()) => {},
                    Err(e) => {
                        proof {
                            lemma_feed_prefix(start, text@, i as int + 1);
                            let full = feed(start, text@).0;
                            let upto = feed(start, text@.take(i + 1)).0;
                            assert(upto == lines.push(line@));
                            assert(upto.len() == lines.len() + 1);
                            assert(full.take(lines.len() as int) =~= lines) by {
                                assert(upto == full.take(upto.len() as int));
                                assert(upto.take(lines.len() as int) =~= lines);
                            }
                            assert(appended(before, self.stored(), full.take(lines.len() as int)));
                        }
                        return Err(e);
                    },
                }
                proof {
                    let after = self.stored();
                    let nl = lines.push(line@);
                    assert(after.take(before.len() as int) =~= before) by {
                        assert(mid.take(before.len() as int) == before);
                        assert(after.take(mid.len() as int) == mid);
                    }
                    assert forall|j: int| 0 <= j < nl.len() implies record_of(
                        #[trigger] after[before.len() + j],
                        nl[j],
                    ) by {
                        if j < lines.len() {
                            assert(after[before.len() + j] == mid[before.len() + j]);
                        }
                    }
                }
            } else {
                self.buffer.push(c);
            }
            i += 1;
        }
        proof {
            assert(text@.take(chars@.len() as int) =~= text@);
        }
        Ok(())
    }

    /// Stores what is pending as one last record, unless it is empty or only
    /// whitespace, in which case nothing happens.
    pub fn flush(&mut self) -> (r: Result<(), SinkError>)
        ensures
            final(self).table_name() == old(self).table_name(),
            trim(old(self).pending()).len() == 0 ==> r is Ok && final(self).pending() == old(
                self,
            ).pending() && final(self).stored() == old(self).stored(),
            trim(old(self).pending()).len() > 0 && r is Ok ==> final(self).pending()
                == Seq::<char>::empty() && appended(
                old(self).stored(),
                final(self).stored(),
                seq![old(self).pending()],
            ),
            r is Err ==> final(self).stored() == old(self).stored(),
    {
        let (a, b) = trim_bounds(&self.buffer, 0, self.buffer.len());
        proof {
            assert(self.buffer@.subrange(0, self.buffer@.len() as int) =~= self.buffer@);
        }
        if a == b {
            return Ok(());
        }
        let mut line: Vec<char> = Vec::new();
        std::mem::swap(&mut line, &mut self.buffer);
        let r = self.store(&line);
        proof {
            if r is Ok {
                assert(self.stored().take(old(self).stored().len() as int) =~= old(self).stored());
                assert(self.stored()[old(self).stored().len() as int] == self.stored().last());
            }
        }
        r
    }
}

/// Once a flush has stored the pending text nothing is pending, so a second
/// flush finds only blank text and stores nothing.
pub proof fn lemma_second_flush_stores_nothing()
    ensures
        trim(Seq::<char>::empty()).len() == 0,
{
    assert(crate::text::trim_start(Seq::<char>::empty()) == Seq::<char>::empty());
    assert(crate::text::trim_end(Seq::<char>::empty()) == Seq::<char>::empty());
}

/// Writing `a` and then `b` stores the same lines, and leaves the same text
/// pending, as writing `a + b` at once.
pub proof fn lemma_feed_concat(pending: Seq<char>, a: Seq<char>, b: Seq<char>)
    ensures
        feed(pending, a + b).0 == feed(pending, a).0 + feed(feed(pending, a).1, b).0,
        feed(pending, a + b).1 == feed(feed(pending, a).1, b).1,
    decreases b.len(),
{
    let mid = feed(pending, a).1;
    if b.len() == 0 {
        assert(a + b =~= a);
        assert(feed(pending, a).0 + feed(mid, b).0 =~= feed(pending, a).0);
    } else {
        lemma_feed_concat(pending, a, b.drop_last());
        assert((a + b).drop_last() =~= a + b.drop_last());
        assert((a + b).last() == b.last());
        let (l1, _) = feed(pending, a);
        let (l2, _) = feed(mid, b.drop_last());
        if b.last() == '\n' {
            assert((l1 + l2).push(feed(mid, b.drop_last()).1) =~= l1 + l2.push(
                feed(mid, b.drop_last()).1,
            ));
        }
    }
}

/// Text without a line terminator completes no line: it only extends what is
/// pending.
pub proof fn lemma_feed_partial(pending: Seq<char>, text: Seq<char>)
    requires
        forall|i: int| 0 <= i < text.len() ==> text[i] != '\n',
    ensures
        feed(pending, text).0 == Seq::<Seq<char>>::empty(),
        feed(pending, text).1 == pending + text,
    decreases text.len(),
{
    if text.len() == 0 {
        assert(pending + text =~= pending);
    } else {
        lemma_feed_partial(pending, text.drop_last());
        assert((pending + text.drop_last()).push(text.last()) =~= pending + text);
    }
}

/// A partial line followed by its remainder and one terminator completes
/// exactly one line: everything pending before it, then the new text.
pub proof fn lemma_feed_one_line(pending: Seq<char>, text: Seq<char>)
    requires
        forall|i: int| 0 <= i < text.len() ==> text[i] != '\n',
    ensures
        feed(pending, text.push('\n')).0 == seq![pending + text],
        feed(pending, text.push('\n')).1 == Seq::<char>::empty(),
{
    lemma_feed_partial(pending, text);
    assert(text.push('\n').drop_last() =~= text);
    assert(Seq::<Seq<char>>::empty().push(pending + text) =~= seq![pending + text]);
}

/// Cutting `pending + text` at its first `n` characters yields a prefix of the
/// full list of lines.
pub proof fn lemma_feed_prefix(pending: Seq<char>, text: Seq<char>, n: int)
    requires
        0 <= n <= text.len(),
    ensures
        feed(pending, text.take(n)).0.len() <= feed(pending, text).0.len(),
        feed(pending, text.take(n)).0 == feed(pending, text).0.take(
            feed(pending, text.take(n)).0.len() as int,
        ),
    decreases text.len() - n,
{
    if n < text.len() {
        lemma_feed_prefix(pending, text, n + 1);
        assert(text.take(n + 1).drop_last() =~= text.take(n));
        let a = feed(pending, text.take(n)).0;
        let b = feed(pending, text.take(n + 1)).0;
        assert(b.take(a.len() as int) =~= a);
        assert(text.take(n + 1).len() > 0);
    } else {
        assert(text.take(n) =~= text);
        assert(feed(pending, text).0.take(feed(pending, text).0.len() as int) =~= feed(pending, text).0);
    }
}

} // verus!
