use tiberius_sqlserver::config::AuthMode;
use tiberius_sqlserver::config::ConnectionConfig;
use tiberius_sqlserver::config::ResolvedAddress;
use tiberius_sqlserver::errors::SqlError;

#[test]
fn ado_scenario_full_form() {
    let c = ConnectionConfig::from_ado_string(
        "server=HOST,1433;database=db;IntegratedSecurity=true;TrustServerCertificate=true",
    )
    .unwrap();
    assert_eq!(c.host, "HOST");
    assert_eq!(c.port, Some(1433));
    assert_eq!(c.instance_name, None);
    assert_eq!(c.database, Some(String::from("db")));
    assert_eq!(c.auth_mode, AuthMode::Integrated);
    assert!(c.trust_server_certificate);
    assert!(c.credentials.is_none());
}

#[test]
fn ado_named_instance() {
    let c = ConnectionConfig::from_ado_string(
        "server=JASON\\SQLEXPRESS;IntegratedSecurity=true;TrustServerCertificate=true",
    )
    .unwrap();
    assert_eq!(c.host, "JASON");
    assert_eq!(c.instance_name, Some(String::from("SQLEXPRESS")));
    assert_eq!(c.port, None);
    assert_eq!(c.auth_mode, AuthMode::Integrated);
    assert!(c.trust_server_certificate);
}

#[test]
fn ado_instance_and_port() {
    let c = ConnectionConfig::from_ado_string(
        "server=JASON\\SQLEXPRESS,61521;database=AdventureWorks2016_EXT;IntegratedSecurity=true;TrustServerCertificate=true",
    )
    .unwrap();
    assert_eq!(c.host, "JASON");
    assert_eq!(c.instance_name, Some(String::from("SQLEXPRESS")));
    assert_eq!(c.port, Some(61521));
    assert_eq!(c.database, Some(String::from("AdventureWorks2016_EXT")));
}

#[test]
fn missing_server_key_is_malformed() {
    let r = ConnectionConfig::from_ado_string("database=db;IntegratedSecurity=true");
    assert_eq!(r, Err(SqlError::MalformedConnectionString));
    let r2 = ConnectionConfig::from_ado_string("");
    assert_eq!(r2, Err(SqlError::MalformedConnectionString));
}

#[test]
fn malformed_values_are_rejected() {
    assert_eq!(
        ConnectionConfig::from_ado_string("server=H;IntegratedSecurity=yes"),
        Err(SqlError::MalformedConnectionString)
    );
    assert_eq!(
        ConnectionConfig::from_ado_string("server=H,notaport"),
        Err(SqlError::MalformedConnectionString)
    );
    assert_eq!(
        ConnectionConfig::from_ado_string("server=H,70000"),
        Err(SqlError::MalformedConnectionString)
    );
    assert_eq!(
        ConnectionConfig::from_ado_string("server=,1433"),
        Err(SqlError::MalformedConnectionString)
    );
    assert_eq!(
        ConnectionConfig::from_ado_string("server=H;unknown=1"),
        Err(SqlError::MalformedConnectionString)
    );
    assert_eq!(
        ConnectionConfig::from_ado_string("noequalsign"),
        Err(SqlError::MalformedConnectionString)
    );
}

#[test]
fn port_bounds() {
    let c = ConnectionConfig::from_ado_string("server=H,65535").unwrap();
    assert_eq!(c.port, Some(65535));
    assert_eq!(
        ConnectionConfig::from_ado_string("server=H,65536"),
        Err(SqlError::MalformedConnectionString)
    );
    assert_eq!(
        ConnectionConfig::from_ado_string("server=H,"),
        Err(SqlError::MalformedConnectionString)
    );
    let padded = ConnectionConfig::from_ado_string("server=H,0001433").unwrap();
    assert_eq!(padded.port, Some(1433));
}

#[test]
fn later_assignment_wins() {
    let c = ConnectionConfig::from_ado_string("server=A;server=B,9;database=x;database=y").unwrap();
    assert_eq!(c.host, "B");
    assert_eq!(c.port, Some(9));
    assert_eq!(c.database, Some(String::from("y")));
}

#[test]
fn keys_are_case_insensitive() {
    let c = ConnectionConfig::from_ado_string(
        "SERVER=h;integratedsecurity=TRUE;trustservercertificate=False",
    )
    .unwrap();
    assert_eq!(c.host, "h");
    assert_eq!(c.auth_mode, AuthMode::Integrated);
    assert!(!c.trust_server_certificate);
}

#[test]
fn jdbc_scenario() {
    let c = ConnectionConfig::from_jdbc_string(
        "jdbc:sqlserver://JASON\\SQLEXPRESS;integratedSecurity=true;trustServerCertificate=true",
    )
    .unwrap();
    assert_eq!(c.host, "JASON");
    assert_eq!(c.instance_name, Some(String::from("SQLEXPRESS")));
    assert_eq!(c.port, None);
    assert_eq!(c.auth_mode, AuthMode::Integrated);
    assert!(c.trust_server_certificate);
}

#[test]
fn jdbc_without_prefix_is_malformed() {
    assert_eq!(
        ConnectionConfig::from_jdbc_string("sqlserver://HOST"),
        Err(SqlError::MalformedConnectionString)
    );
    assert_eq!(
        ConnectionConfig::from_jdbc_string(""),
        Err(SqlError::MalformedConnectionString)
    );
}

#[test]
fn builder_matches_parsed_forms() {
    // The same target written three ways resolves to the same address and
    // authentication mode.
    let ado = ConnectionConfig::from_ado_string(
        "server=JASON\\SQLEXPRESS;IntegratedSecurity=true;TrustServerCertificate=true",
    )
    .unwrap();
    let jdbc = ConnectionConfig::from_jdbc_string(
        "jdbc:sqlserver://JASON\\SQLEXPRESS;integratedSecurity=true;trustServerCertificate=true",
    )
    .unwrap();
    let mut built = ConnectionConfig::new();
    built.host(String::from("JASON"));
    built.instance_name(String::from("SQLEXPRESS"));
    built.authentication(AuthMode::Integrated);
    built.trust_cert();

    assert_eq!(ado.resolved_address(), jdbc.resolved_address());
    assert_eq!(ado.resolved_address(), built.resolved_address());
    assert_eq!(ado.auth_mode, jdbc.auth_mode);
    assert_eq!(ado.auth_mode, built.auth_mode);
}

#[test]
fn jdbc_and_ado_agree_on_the_same_tail() {
    // The two textual forms of one target parse to the same configuration.
    let tail = "JASON\\SQLEXPRESS;integratedSecurity=true;trustServerCertificate=true";
    let jdbc =
        ConnectionConfig::from_jdbc_string(&format!("jdbc:sqlserver://{}", tail)).unwrap();
    let ado = ConnectionConfig::from_ado_string(&format!("server={}", tail)).unwrap();
    assert_eq!(jdbc, ado);

    let tail2 = "HOST,1433;database=db";
    let jdbc2 =
        ConnectionConfig::from_jdbc_string(&format!("jdbc:sqlserver://{}", tail2)).unwrap();
    let ado2 = ConnectionConfig::from_ado_string(&format!("server={}", tail2)).unwrap();
    assert_eq!(jdbc2, ado2);
}

#[test]
fn resolution_prefers_explicit_port() {
    let c = ConnectionConfig::from_ado_string("server=H\\INST,5000").unwrap();
    assert_eq!(
        c.resolved_address(),
        ResolvedAddress::Direct { host: String::from("H"), port: 5000 }
    );

    let named = ConnectionConfig::from_ado_string("server=H\\INST").unwrap();
    assert_eq!(
        named.resolved_address(),
        ResolvedAddress::Named { host: String::from("H"), instance: String::from("INST") }
    );

    let plain = ConnectionConfig::from_ado_string("server=H").unwrap();
    assert_eq!(
        plain.resolved_address(),
        ResolvedAddress::Direct { host: String::from("H"), port: 1433 }
    );
}

#[test]
fn builder_defaults_and_credentials() {
    let mut c = ConnectionConfig::new();
    assert_eq!(c.host, "localhost");
    assert_eq!(c.port, None);
    assert_eq!(c.auth_mode, AuthMode::SqlLogin);
    assert!(!c.trust_server_certificate);
    c.port(1434);
    c.database(String::from("master"));
    c.sql_login(String::from("sa"), String::from("secret"));
    assert_eq!(c.port, Some(1434));
    assert_eq!(c.database, Some(String::from("master")));
    let creds = c.credentials.clone().unwrap();
    assert_eq!(creds.user, "sa");
    assert_eq!(creds.password, "secret");
}
