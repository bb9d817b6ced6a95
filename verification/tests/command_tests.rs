use tiberius_sqlserver::command::Command;
use tiberius_sqlserver::command::required_parameters;
use tiberius_sqlserver::errors::SqlError;
use tiberius_sqlserver::value::SqlDate;
use tiberius_sqlserver::value::SqlType;
use tiberius_sqlserver::value::SqlValue;

#[test]
fn placeholder_counting() {
    assert_eq!(required_parameters("select 1"), Some(0));
    assert_eq!(required_parameters("insert t values (@P1, @P2, @P3)"), Some(3));
    assert_eq!(
        required_parameters("exec dbo.register_rabbit_birth @birth_date= @P1, @name=@P2"),
        Some(2)
    );
    // A repeated reference needs no extra parameter.
    assert_eq!(required_parameters("select @P1 + @P1"), Some(1));
    // The largest ordinal decides, not the number of references.
    assert_eq!(required_parameters("select @P7"), Some(7));
    // A bare @P without digits refers to nothing.
    assert_eq!(required_parameters("select '@P '"), Some(0));
}

#[test]
fn multi_digit_ordinals() {
    assert_eq!(required_parameters("select @P10"), Some(10));
    assert_eq!(required_parameters("select @P2, @P10, @P3"), Some(10));
}

#[test]
fn values_carry_their_types() {
    assert_eq!(SqlValue::Int(1).sql_type(), SqlType::Int);
    assert_eq!(SqlValue::VarChar(String::from("x")).sql_type(), SqlType::VarChar);
    assert_eq!(
        SqlValue::Date(SqlDate { year: 2024, month: 1, day: 1 }).sql_type(),
        SqlType::Date
    );
}

#[test]
fn binding_fewer_parameters_than_placeholders_fails() {
    let mut cmd = Command::new(String::from(
        "INSERT INTO rabbit_births (id, name, date_of_birth) VALUES (@P1, @P2, @P3)",
    ));
    cmd.bind(SqlValue::Int(1));
    cmd.bind(SqlValue::VarChar(String::from("Bugs Bunny")));
    assert_eq!(cmd.validate(), Err(SqlError::ParameterCountMismatch));
}

#[test]
fn binding_more_parameters_than_placeholders_fails() {
    let mut cmd = Command::new(String::from("select @P1"));
    cmd.bind(SqlValue::Int(1));
    cmd.bind(SqlValue::Int(2));
    assert_eq!(cmd.validate(), Err(SqlError::ParameterCountMismatch));
}

#[test]
fn binding_exactly_the_placeholders_passes() {
    let mut cmd = Command::new(String::from(
        "INSERT INTO rabbit_births (id, name, date_of_birth) VALUES (@P1, @P2, @P3)",
    ));
    cmd.bind(SqlValue::Int(1));
    cmd.bind(SqlValue::VarChar(String::from("Bugs Bunny")));
    cmd.bind(SqlValue::Date(SqlDate { year: 2023, month: 8, day: 1 }));
    assert_eq!(cmd.validate(), Ok(()));
}

#[test]
fn invalid_date_parameter_is_unsupported() {
    let mut cmd = Command::new(String::from("select @P1"));
    cmd.bind(SqlValue::Date(SqlDate { year: 2023, month: 2, day: 29 }));
    assert_eq!(cmd.validate(), Err(SqlError::UnsupportedParameterType));

    let mut bad_month = Command::new(String::from("select @P1"));
    bad_month.bind(SqlValue::Date(SqlDate { year: 2023, month: 13, day: 1 }));
    assert_eq!(bad_month.validate(), Err(SqlError::UnsupportedParameterType));
}

#[test]
fn leap_year_rules() {
    assert!(SqlDate { year: 2024, month: 2, day: 29 }.is_valid());
    assert!(!SqlDate { year: 2023, month: 2, day: 29 }.is_valid());
    assert!(!SqlDate { year: 1900, month: 2, day: 29 }.is_valid());
    assert!(SqlDate { year: 2000, month: 2, day: 29 }.is_valid());
    assert!(SqlDate { year: 2023, month: 4, day: 30 }.is_valid());
    assert!(!SqlDate { year: 2023, month: 4, day: 31 }.is_valid());
    assert!(!SqlDate { year: 2023, month: 0, day: 1 }.is_valid());
    assert!(!SqlDate { year: 0, month: 1, day: 1 }.is_valid());
}

#[test]
fn count_check_happens_before_type_check() {
    // A bad value beside a bad count: the count mismatch is reported.
    let mut cmd = Command::new(String::from("select @P2"));
    cmd.bind(SqlValue::Date(SqlDate { year: 2023, month: 2, day: 29 }));
    assert_eq!(cmd.validate(), Err(SqlError::ParameterCountMismatch));
}
