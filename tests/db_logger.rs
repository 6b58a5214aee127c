use b2c_migrator::db_logger::{create_table_sql, insert_sql, DBLogger};
use rusqlite::Connection;

// Builds a sink over an in-memory store with a fresh table.
fn setup_test_db_logger(table_name: &str) -> DBLogger {
    let conn = Connection::open_in_memory().unwrap();
    conn.execute(&create_table_sql(table_name), []).unwrap();
    DBLogger::new(conn, table_name.to_string())
}

fn count_rows(logger: &DBLogger, table_name: &str) -> i64 {
    logger
        .connection()
        .query_row(&format!("SELECT COUNT(*) FROM '{table_name}'"), [], |r| r.get(0))
        .unwrap()
}

#[test]
fn test_dblogger_insert_line_full_format() {
    let table_name = "test_log_full";
    let mut logger = setup_test_db_logger(table_name);
    let line = "2024-01-01 10:00:00 [INFO] [\"testuser\"] This is a test message.";
    logger.insert_line(line).unwrap();

    let conn = logger.connection();
    let mut stmt = conn
        .prepare(&format!("SELECT timestamp, level, username, message FROM '{table_name}'"))
        .unwrap();
    let row: (String, String, String, String) = stmt
        .query_row([], |r| Ok((r.get(0).unwrap(), r.get(1).unwrap(), r.get(2).unwrap(), r.get(3).unwrap())))
        .unwrap();

    assert_eq!(row.0, "2024-01-01 10:00:00");
    assert_eq!(row.1, "INFO");
    assert_eq!(row.2, "testuser");
    assert_eq!(row.3, "This is a test message.");
}

#[test]
fn test_dblogger_insert_line_no_username() {
    let table_name = "test_log_no_user";
    let mut logger = setup_test_db_logger(table_name);
    let line = "2024-01-01 10:00:00 [ERROR] This is an error message without username.";
    logger.insert_line(line).unwrap();

    let conn = logger.connection();
    let mut stmt = conn
        .prepare(&format!("SELECT timestamp, level, username, message FROM '{table_name}'"))
        .unwrap();
    let row: (String, String, String, String) = stmt
        .query_row([], |r| Ok((r.get(0).unwrap(), r.get(1).unwrap(), r.get(2).unwrap(), r.get(3).unwrap())))
        .unwrap();

    assert_eq!(row.0, "2024-01-01 10:00:00");
    assert_eq!(row.1, "ERROR");
    assert_eq!(row.2, "");
    assert_eq!(row.3, "This is an error message without username.");
}

#[test]
fn test_dblogger_insert_line_short_fallback() {
    let table_name = "test_log_short";
    let mut logger = setup_test_db_logger(table_name);
    let line = "Short message";
    logger.insert_line(line).unwrap();

    let conn = logger.connection();
    let mut stmt = conn
        .prepare(&format!("SELECT level, username, message FROM '{table_name}'"))
        .unwrap();
    let row: (String, String, String) = stmt
        .query_row([], |r| Ok((r.get(0).unwrap(), r.get(1).unwrap(), r.get(2).unwrap())))
        .unwrap();

    assert_eq!(row.0, "");
    assert_eq!(row.1, "");
    assert_eq!(row.2, "Short message");
}

#[test]
fn test_dblogger_insert_line_username_without_quotes() {
    let table_name = "test_log_user_no_quotes";
    let mut logger = setup_test_db_logger(table_name);
    let line = "2024-01-01 10:00:00 [DEBUG] [anotheruser] Debug message.";
    logger.insert_line(line).unwrap();

    let conn = logger.connection();
    let mut stmt = conn.prepare(&format!("SELECT username FROM '{table_name}'")).unwrap();
    let username: String = stmt.query_row([], |r| r.get(0)).unwrap();
    assert_eq!(username, "anotheruser");
}

#[test]
fn test_dblogger_write_and_flush() {
    let table_name = "test_log_write_flush";
    let mut logger = setup_test_db_logger(table_name);

    logger.write("2024-01-02 11:00:00 [INFO] [user1] First part.").unwrap();
    logger.write(" Still user1.\n").unwrap();
    logger.write("2024-01-02 11:01:00 [WARN] [user2] Second line fully.\n").unwrap();

    assert_eq!(count_rows(&logger, table_name), 2, "Should have 2 rows after two full lines with newlines");

    logger.write("2024-01-02 11:02:00 [ERROR] [user3] Partial flush").unwrap();
    logger.flush().unwrap();
    assert_eq!(count_rows(&logger, table_name), 3, "Should have 3 rows after flush");

    let last_message: String = logger
        .connection()
        .query_row(&format!("SELECT message FROM '{table_name}' ORDER BY id DESC LIMIT 1"), [], |r| r.get(0))
        .unwrap();
    assert_eq!(last_message, "Partial flush");

    logger.flush().unwrap();
    assert_eq!(count_rows(&logger, table_name), 3, "Count should remain 3 after flushing empty buffer");
}

#[test]
fn test_dblogger_write_multiple_lines_in_one_buffer() {
    let table_name = "test_log_multi_in_buf";
    let mut logger = setup_test_db_logger(table_name);

    let log_data = "2024-01-03 12:00:00 [INFO] [userA] Line A.\n2024-01-03 12:01:00 [INFO] [userB] Line B.\n";
    logger.write(log_data).unwrap();

    assert_eq!(count_rows(&logger, table_name), 2);

    let mut stmt = logger
        .connection()
        .prepare(&format!("SELECT message FROM '{table_name}' ORDER BY id"))
        .unwrap();
    let messages: Vec<String> = stmt.query_map([], |r| r.get(0)).unwrap().map(|res| res.unwrap()).collect();
    assert_eq!(messages, vec!["Line A.", "Line B."]);
}

#[test]
fn test_dblogger_write_empty_string() {
    let table_name = "test_log_empty_write";
    let mut logger = setup_test_db_logger(table_name);

    logger.write("").unwrap();
    logger.flush().unwrap();

    assert_eq!(count_rows(&logger, table_name), 0, "No rows should be inserted for empty write and flush");
}

#[test]
fn sink_round_trip_of_one_full_line() {
    let table_name = "round_trip";
    let mut logger = setup_test_db_logger(table_name);
    logger.write("2024-01-01 10:00:00 [INFO] [\"alice\"] hello\n").unwrap();

    let rows: Vec<(String, String, String, String)> = logger
        .connection()
        .prepare(&format!("SELECT timestamp, level, username, message FROM '{table_name}'"))
        .unwrap()
        .query_map([], |r| Ok((r.get(0)?, r.get(1)?, r.get(2)?, r.get(3)?)))
        .unwrap()
        .map(|r| r.unwrap())
        .collect();
    assert_eq!(rows.len(), 1);
    assert_eq!(rows[0].0, "2024-01-01 10:00:00");
    assert_eq!(rows[0].1, "INFO");
    assert_eq!(rows[0].2, "alice");
    assert_eq!(rows[0].3, "hello");
}

#[test]
fn sink_partial_line_stored_once_newline_arrives() {
    let table_name = "partial";
    let mut logger = setup_test_db_logger(table_name);
    logger.write("2024-01-01 10:00:00 [WARN] [bob] first").unwrap();
    assert_eq!(count_rows(&logger, table_name), 0);
    logger.write(" half").unwrap();
    assert_eq!(count_rows(&logger, table_name), 0);
    logger.write(" done\n").unwrap();
    assert_eq!(count_rows(&logger, table_name), 1);
    let msg: String = logger
        .connection()
        .query_row(&format!("SELECT message FROM '{table_name}'"), [], |r| r.get(0))
        .unwrap();
    assert_eq!(msg, "first half done");
}

#[test]
fn sink_flush_of_whitespace_stores_nothing() {
    let table_name = "blank_flush";
    let mut logger = setup_test_db_logger(table_name);
    logger.write("   \t ").unwrap();
    logger.flush().unwrap();
    assert_eq!(count_rows(&logger, table_name), 0);
}

#[test]
fn sink_short_line_gets_clock_timestamp() {
    let table_name = "short_clock";
    let mut logger = setup_test_db_logger(table_name);
    logger.write("  short  \n").unwrap();
    let (ts, msg): (String, String) = logger
        .connection()
        .query_row(&format!("SELECT timestamp, message FROM '{table_name}'"), [], |r| Ok((r.get(0)?, r.get(1)?)))
        .unwrap();
    assert_eq!(msg, "short");
    assert!(ts.len() >= 19);
    assert!(ts.chars().next().unwrap().is_ascii_digit());
}

#[test]
fn sink_reports_store_error_for_missing_table() {
    let conn = Connection::open_in_memory().unwrap();
    let mut logger = DBLogger::new(conn, "absent".to_string());
    assert!(logger.insert_line("2024-01-01 10:00:00 [INFO] missing table here").is_err());
}

#[test]
fn sql_statements_are_exact() {
    assert_eq!(
        insert_sql("t1"),
        "INSERT INTO 't1' (timestamp, level, username, message) VALUES (?, ?, ?, ?)"
    );
    assert_eq!(
        create_table_sql("t2"),
        "CREATE TABLE IF NOT EXISTS 't2' (id INTEGER PRIMARY KEY AUTOINCREMENT, timestamp TEXT, level TEXT, username TEXT, message TEXT)"
    );
}
