use tiberius_sqlserver::command::Command;
use tiberius_sqlserver::config::ConnectionConfig;
use tiberius_sqlserver::errors::SqlError;
use tiberius_sqlserver::rows::Column;
use tiberius_sqlserver::rows::QueryItem;
use tiberius_sqlserver::rows::QueryResponse;
use tiberius_sqlserver::rows::RowData;
use tiberius_sqlserver::session::ExecuteOutcome;
use tiberius_sqlserver::session::HandshakeOutcome;
use tiberius_sqlserver::session::Session;
use tiberius_sqlserver::session::SessionState;
use tiberius_sqlserver::session::TransportFailure;
use tiberius_sqlserver::value::SqlType;
use tiberius_sqlserver::value::SqlValue;

fn ready_session() -> Session {
    let config = ConnectionConfig::from_ado_string(
        "server=HOST,1433;database=db;IntegratedSecurity=true;TrustServerCertificate=true",
    )
    .unwrap();
    let mut s = Session::connect(config);
    assert_eq!(s.state(), SessionState::Connecting);
    s.complete_handshake(HandshakeOutcome::Accepted).unwrap();
    assert_eq!(s.state(), SessionState::Ready);
    s
}

#[test]
fn handshake_rejections_close_the_session() {
    let config = ConnectionConfig::from_ado_string("server=H").unwrap();
    let mut s = Session::connect(config.clone());
    assert_eq!(
        s.complete_handshake(HandshakeOutcome::AuthRejected),
        Err(SqlError::AuthenticationFailed)
    );
    assert_eq!(s.state(), SessionState::Closed);

    let mut s2 = Session::connect(config);
    assert_eq!(
        s2.complete_handshake(HandshakeOutcome::VersionRejected),
        Err(SqlError::ProtocolVersionMismatch)
    );
    assert_eq!(s2.state(), SessionState::Closed);
}

#[test]
fn transport_failures_map_to_their_errors() {
    let config = ConnectionConfig::from_ado_string("server=H").unwrap();
    let mut s = Session::connect(config.clone());
    assert_eq!(s.abort_connect(TransportFailure::Unreachable), SqlError::NetworkUnreachable);
    assert_eq!(s.state(), SessionState::Closed);

    let mut s2 = Session::connect(config.clone());
    assert_eq!(s2.abort_connect(TransportFailure::TimedOut), SqlError::ConnectTimeout);

    let mut s3 = Session::connect(config);
    assert_eq!(s3.abort_connect(TransportFailure::InstanceMissing), SqlError::InstanceNotFound);
}

#[test]
fn execute_returns_count_and_no_stream() {
    let mut s = ready_session();
    let cmd = Command::new(String::from("drop table if exists dbo.rabbit_births"));
    let affected = s.execute(&cmd, ExecuteOutcome::Affected { count: 0 }).unwrap();
    assert_eq!(affected, 0);
    // No stream came into being: the session is immediately ready again.
    assert_eq!(s.state(), SessionState::Ready);

    let cmd2 = Command::new(String::from("update t set x = 1"));
    let affected2 = s.execute(&cmd2, ExecuteOutcome::Affected { count: 7 }).unwrap();
    assert_eq!(affected2, 7);
    assert_eq!(s.state(), SessionState::Ready);
}

#[test]
fn execute_passes_server_faults_through() {
    let mut s = ready_session();
    let cmd = Command::new(String::from("exec dbo.nope"));
    let r = s.execute(
        &cmd,
        ExecuteOutcome::ServerFault { code: 2812, message: String::from("Could not find stored procedure") },
    );
    assert_eq!(
        r,
        Err(SqlError::ServerError {
            code: 2812,
            message: String::from("Could not find stored procedure")
        })
    );
    assert_eq!(s.state(), SessionState::Ready);
}

#[test]
fn execute_validates_before_submission() {
    let mut s = ready_session();
    let mut cmd = Command::new(String::from("select @P1"));
    cmd.bind(SqlValue::Int(1));
    cmd.bind(SqlValue::Int(2));
    // Whatever the server would have answered, the bad binding is caught
    // first and nothing is submitted.
    let r = s.execute(&cmd, ExecuteOutcome::Affected { count: 99 });
    assert_eq!(r, Err(SqlError::ParameterCountMismatch));
    assert_eq!(s.state(), SessionState::Ready);
}

#[test]
fn select_one_as_x_scenario() {
    let mut s = ready_session();
    let cmd = Command::new(String::from("select 1 as x"));
    let response = QueryResponse::result_set(
        vec![Column { name: String::from("x"), col_type: SqlType::Int }],
        vec![RowData { cells: vec![Some(SqlValue::Int(1))] }],
    );
    let mut stream = s.query(&cmd, response).unwrap();
    assert_eq!(s.state(), SessionState::Executing);

    match stream.next() {
        Some(QueryItem::Metadata(cols)) => {
            assert_eq!(cols.len(), 1);
            assert_eq!(cols[0].name, "x");
            assert_eq!(cols[0].col_type, SqlType::Int);
        },
        other => panic!("expected metadata first, got {:?}", other),
    }
    match stream.next() {
        Some(QueryItem::Row(row)) => {
            assert_eq!(row.get_int(0), Ok(Some(1)));
        },
        other => panic!("expected one row, got {:?}", other),
    }
    assert_eq!(stream.next(), None);
    // The stream is single-pass: once done it stays done.
    assert_eq!(stream.next(), None);

    s.finish(stream);
    assert_eq!(s.state(), SessionState::Ready);
}

#[test]
fn query_yields_metadata_then_all_rows_in_order() {
    let mut s = ready_session();
    let cmd = Command::new(String::from("select * from HumanResources.Department"));
    let rows = vec![
        RowData { cells: vec![Some(SqlValue::SmallInt(4)), Some(SqlValue::VarChar(String::from("Marketing")))] },
        RowData { cells: vec![Some(SqlValue::SmallInt(5)), Some(SqlValue::VarChar(String::from("Purchasing")))] },
        RowData { cells: vec![Some(SqlValue::SmallInt(6)), None] },
    ];
    let response = QueryResponse::result_set(
        vec![
            Column { name: String::from("DepartmentID"), col_type: SqlType::SmallInt },
            Column { name: String::from("Name"), col_type: SqlType::VarChar },
        ],
        rows,
    );
    let mut stream = s.query(&cmd, response).unwrap();
    assert_eq!(stream.remaining(), 4);

    assert!(matches!(stream.next(), Some(QueryItem::Metadata(_))));
    let mut seen: Vec<i16> = Vec::new();
    while let Some(item) = stream.next() {
        match item {
            QueryItem::Row(row) => seen.push(row.get_smallint(0).unwrap().unwrap()),
            QueryItem::Metadata(_) => panic!("metadata after rows"),
        }
    }
    assert_eq!(seen, vec![4, 5, 6]);
    assert_eq!(stream.next(), None);
    s.finish(stream);
}

#[test]
fn second_query_while_stream_undrained_is_busy() {
    let mut s = ready_session();
    let cmd = Command::new(String::from("select 1 as x"));
    let response = QueryResponse::result_set(
        vec![Column { name: String::from("x"), col_type: SqlType::Int }],
        vec![RowData { cells: vec![Some(SqlValue::Int(1))] }],
    );
    let stream = s.query(&cmd, response).unwrap();
    assert_eq!(s.state(), SessionState::Executing);

    let again = Command::new(String::from("select 2 as y"));
    let r = s.query(&again, QueryResponse::result_set(Vec::new(), Vec::new()));
    assert!(matches!(r, Err(SqlError::SessionBusy)));
    assert_eq!(s.state(), SessionState::Executing);

    // The same holds for execute.
    let r2 = s.execute(&again, ExecuteOutcome::Affected { count: 0 });
    assert_eq!(r2, Err(SqlError::SessionBusy));

    // Abandoning the stream frees the session.
    s.finish(stream);
    assert_eq!(s.state(), SessionState::Ready);
    let r3 = s.execute(&again, ExecuteOutcome::Affected { count: 0 });
    assert_eq!(r3, Ok(0));
}

#[test]
fn query_server_fault_leaves_session_ready() {
    let mut s = ready_session();
    let cmd = Command::new(String::from("select * from missing_table"));
    let r = s.query(
        &cmd,
        QueryResponse::ServerFault { code: 208, message: String::from("Invalid object name") },
    );
    assert!(matches!(r, Err(SqlError::ServerError { code: 208, .. })));
    assert_eq!(s.state(), SessionState::Ready);
}

#[test]
fn close_is_idempotent_and_aborts_in_flight_work() {
    let mut s = ready_session();
    let cmd = Command::new(String::from("select 1"));
    let stream = s.query(&cmd, QueryResponse::result_set(Vec::new(), Vec::new())).unwrap();
    s.close();
    assert_eq!(s.state(), SessionState::Closed);
    s.close();
    assert_eq!(s.state(), SessionState::Closed);
    drop(stream);
}
