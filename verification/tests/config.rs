use lambda::config::{ConfigError, Environment, IntFault};
use lambda::Config;

fn variables() -> Vec<(&'static str, &'static str)> {
    vec![
        ("AWS_LAMBDA_RUNTIME_API", "127.0.0.1:9001"),
        ("AWS_LAMBDA_FUNCTION_NAME", "hello"),
        ("AWS_LAMBDA_FUNCTION_MEMORY_SIZE", "128"),
        ("AWS_LAMBDA_FUNCTION_VERSION", "$LATEST"),
        ("AWS_LAMBDA_LOG_STREAM_NAME", "stream"),
        ("AWS_LAMBDA_LOG_GROUP_NAME", "group"),
    ]
}

fn from(variables: &[(&'static str, &'static str)]) -> Result<Config, ConfigError<&'static str>> {
    Config::from_env(|name| {
        for (key, value) in variables {
            if *key == name {
                return Ok(value.to_string());
            }
        }
        Err(name)
    })
}

#[test]
fn every_variable_has_its_field() {
    let config = from(&variables()).unwrap();
    assert_eq!(
        config,
        Config {
            endpoint: "127.0.0.1:9001".to_string(),
            function_name: "hello".to_string(),
            memory: 128,
            version: "$LATEST".to_string(),
            log_stream: "stream".to_string(),
            log_group: "group".to_string(),
        }
    );
}

#[test]
fn first_missing_variable_is_the_error() {
    let all = variables();
    for i in 0..all.len() {
        match from(&all[..i]) {
            Err(ConfigError::Var(name)) => assert_eq!(name, all[i].0),
            other => panic!("{:?}", other),
        }
        let mut one = all.clone();
        one.remove(i);
        match from(&one) {
            Err(ConfigError::Var(name)) => assert_eq!(name, all[i].0),
            other => panic!("{:?}", other),
        }
    }
}

#[test]
fn memory_is_a_decimal_number() {
    let cases = [
        ("0", Some(0)),
        ("+7", Some(7)),
        ("-0", Some(0)),
        ("007", Some(7)),
        ("2147483647", Some(2147483647)),
        ("-2147483648", Some(-2147483648)),
        ("2147483648", None),
        ("-2147483649", None),
        ("", None),
        ("+", None),
        ("-", None),
        ("+-1", None),
        (" 1", None),
        ("1 ", None),
        ("1_0", None),
        ("0x1", None),
        ("1.0", None),
        ("\u{661}", None),
    ];
    for (text, memory) in cases {
        let mut variables = variables();
        variables[2].1 = text;
        match (from(&variables), memory) {
            (Ok(config), Some(memory)) => assert_eq!(config.memory, memory),
            (Err(ConfigError::Memory(e)), None) => {
                assert_eq!(e.message, text.parse::<i32>().unwrap_err().to_string())
            }
            (other, _) => panic!("{:?}: {:?}", text, other),
        }
    }
}

#[test]
fn memory_is_read_before_the_version_is_missed() {
    let mut variables = variables();
    variables[2].1 = "much";
    variables.remove(3);
    assert!(matches!(from(&variables), Err(ConfigError::Memory(_))));
    variables.remove(1);
    assert!(matches!(from(&variables), Err(ConfigError::Var("AWS_LAMBDA_FUNCTION_NAME"))));
}

#[test]
fn environment_holds_a_configuration() {
    let env: Environment<()> = Environment {
        runtime_api: Ok("a".to_string()),
        function_name: Ok("b".to_string()),
        function_memory_size: Ok("-3".to_string()),
        function_version: Ok("c".to_string()),
        log_stream_name: Ok("d".to_string()),
        log_group_name: Ok("e".to_string()),
    };
    let config = Config::from_environment(env).unwrap();
    assert_eq!(config.endpoint, "a");
    assert_eq!(config.memory, -3);
    assert_eq!(config.log_group, "e");
}

#[test]
fn default_is_empty() {
    let config = Config::default();
    assert_eq!(config.endpoint, "");
    assert_eq!(config.function_name, "");
    assert_eq!(config.memory, 0);
    assert_eq!(config.version, "");
    assert_eq!(config.log_stream, "");
    assert_eq!(config.log_group, "");
}

#[test]
fn fault_of_the_memory_size_is_told() {
    let cases = [
        ("", IntFault::Empty),
        ("+", IntFault::InvalidDigit),
        ("-", IntFault::InvalidDigit),
        ("12x", IntFault::InvalidDigit),
        ("12345678x", IntFault::InvalidDigit),
        ("\u{661}", IntFault::InvalidDigit),
        ("2147483648", IntFault::PosOverflow),
        ("+99999999999999999999", IntFault::PosOverflow),
        ("-2147483649", IntFault::NegOverflow),
    ];
    for (text, fault) in cases {
        let mut variables = variables();
        variables[2].1 = text;
        match from(&variables) {
            Err(ConfigError::Memory(e)) => assert_eq!(e.fault, fault, "{:?}", text),
            other => panic!("{:?}", other),
        }
    }
}
