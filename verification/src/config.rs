//! The configuration of a function, read from its environment.
use vstd::prelude::*;

verus! {

/// A struct containing configuration values derived from environment variables.
#[derive(Debug, PartialEq)]
pub struct Config {
    /// The host and port of the
    /// [runtime API](https://docs.aws.amazon.com/lambda/latest/dg/runtimes-api.html).
    pub endpoint: String,
    /// The name of the function.
    pub function_name: String,
    /// The amount of memory available to the function in MB.
    pub memory: i32,
    /// The version of the function being executed.
    pub version: String,
    /// The name of the Amazon CloudWatch Logs stream for the function.
    pub log_stream: String,
    /// The name of the Amazon CloudWatch Logs group for the function.
    pub log_group: String,
}

/// What a configuration says.
pub struct ConfigView {
    pub endpoint: Seq<char>,
    pub function_name: Seq<char>,
    pub memory: int,
    pub version: Seq<char>,
    pub log_stream: Seq<char>,
    pub log_group: Seq<char>,
}

impl View for Config {
    type V = ConfigView;

    open spec fn view(&self) -> ConfigView {
        ConfigView {
            endpoint: self.endpoint@,
            function_name: self.function_name@,
            memory: self.memory as int,
            version: self.version@,
            log_stream: self.log_stream@,
            log_group: self.log_group@,
        }
    }
}

impl Default for Config {
    fn default() -> (config: Config)
        ensures
            config@ == (ConfigView {
                endpoint: seq![],
                function_name: seq![],
                memory: 0,
                version: seq![],
                log_stream: seq![],
                log_group: seq![],
            }),
            config.endpoint@.len() == 0 && config.function_name@.len() == 0 && config.memory == 0,
            config.version@.len() == 0 && config.log_stream@.len() == 0 && config.log_group@.len()
                == 0,
    {
        Config {
            endpoint: String::new(),
            function_name: String::new(),
            memory: 0,
            version: String::new(),
            log_stream: String::new(),
            log_group: String::new(),
        }
    }
}

/// What reading each environment variable of a function gave, with errors of type `E`.
#[derive(Debug)]
pub struct Environment<E> {
    /// `AWS_LAMBDA_RUNTIME_API`
    pub runtime_api: Result<String, E>,
    /// `AWS_LAMBDA_FUNCTION_NAME`
    pub function_name: Result<String, E>,
    /// `AWS_LAMBDA_FUNCTION_MEMORY_SIZE`
    pub function_memory_size: Result<String, E>,
    /// `AWS_LAMBDA_FUNCTION_VERSION`
    pub function_version: Result<String, E>,
    /// `AWS_LAMBDA_LOG_STREAM_NAME`
    pub log_stream_name: Result<String, E>,
    /// `AWS_LAMBDA_LOG_GROUP_NAME`
    pub log_group_name: Result<String, E>,
}

/// Why there is no configuration.
#[derive(Debug)]
pub enum ConfigError<E> {
    /// A variable could not be read.
    Var(E),
    /// The amount of memory is not a number, or not one that fits.
    Memory(IntError),
}

/// What keeps a text from being a number.
#[derive(Debug, PartialEq)]
pub enum IntFault {
    /// There is no text.
    Empty,
    /// A character is not a digit, or not where it should be.
    InvalidDigit,
    /// The number is too large.
    PosOverflow,
    /// The number is too small.
    NegOverflow,
    /// The number is zero, where it should not be.
    Zero,
    /// None of these.
    Other,
}

/// A text that is not a number, or not one that fits.
#[derive(Debug, PartialEq)]
pub struct IntError {
    /// What keeps the text from being a number.
    pub fault: IntFault,
    /// What the error says.
    pub message: String,
}

/// A text that is not a number, or not one that fits.
pub struct IntErrorView {
    pub fault: IntFault,
    pub message: Seq<char>,
}

impl View for IntError {
    type V = IntErrorView;

    open spec fn view(&self) -> IntErrorView {
        IntErrorView { fault: self.fault, message: self.message@ }
    }
}

/// What comes of reading a configuration.
pub enum Outcome<E> {
    Made(ConfigView),
    Var(E),
    Memory(IntErrorView),
}

/// What came of reading a configuration.
pub open spec fn outcome<E>(made: Result<Config, ConfigError<E>>) -> Outcome<E> {
    match made {
        Ok(config) => Outcome::Made(config@),
        Err(ConfigError::Var(e)) => Outcome::Var(e),
        Err(ConfigError::Memory(e)) => Outcome::Memory(e@),
    }
}

/// The number that a text of decimal digits stands for.
pub open spec fn digits_value(digits: Seq<char>) -> int
    decreases digits.len(),
{
    if digits.len() == 0 {
        0
    } else {
        10 * digits_value(digits.drop_last()) + (digits.last() as int - '0' as int)
    }
}

/// There are digits, and nothing else.
pub open spec fn all_digits(s: Seq<char>) -> bool {
    &&& s.len() > 0
    &&& forall|i: int| 0 <= i < s.len() ==> '0' <= #[trigger] s[i] <= '9'
}

/// The number that a text stands for: an optional sign, then decimal digits and nothing else.
pub open spec fn decimal(s: Seq<char>) -> Option<int> {
    if all_digits(s) {
        Some(digits_value(s))
    } else if s.len() > 0 && s[0] == '+' && all_digits(s.skip(1)) {
        Some(digits_value(s.skip(1)))
    } else if s.len() > 0 && s[0] == '-' && all_digits(s.skip(1)) {
        Some(-digits_value(s.skip(1)))
    } else {
        None
    }
}

/// The number that a text stands for, where an `i32` can hold it.
pub open spec fn decimal_i32(s: Seq<char>) -> Option<int> {
    match decimal(s) {
        Some(n) if i32::MIN <= n <= i32::MAX => Some(n),
        _ => None,
    }
}

/// How `str::parse` fails on a text that is no `i32`.
pub uninterp spec fn i32_error(s: Seq<char>) -> IntErrorView;

/// The fault of a text that is no `i32` is what it should be: there is no text, the number does
/// not fit, or a character is at fault. A text of up to nine characters stands for no number that
/// does not fit; of a longer one that is no number the fault is not stated.
pub open spec fn fault_of(s: Seq<char>, fault: IntFault) -> bool {
    match decimal(s) {
        Some(n) if n > i32::MAX => fault == IntFault::PosOverflow,
        Some(n) if n < i32::MIN => fault == IntFault::NegOverflow,
        Some(_) => true,
        None => {
            &&& fault == IntFault::Empty <==> s.len() == 0
            &&& 0 < s.len() <= 9 ==> fault == IntFault::InvalidDigit
        },
    }
}

/// What comes of an environment: the configuration, or the first thing that stands in its way.
pub open spec fn config_from<E>(env: Environment<E>) -> Outcome<E> {
    match (env.runtime_api, env.function_name, env.function_memory_size) {
        (Err(e), _, _) => Outcome::Var(e),
        (_, Err(e), _) => Outcome::Var(e),
        (_, _, Err(e)) => Outcome::Var(e),
        (Ok(endpoint), Ok(function_name), Ok(memory)) => match (
            decimal_i32(memory@),
            env.function_version,
            env.log_stream_name,
            env.log_group_name,
        ) {
            (None, _, _, _) => Outcome::Memory(i32_error(memory@)),
            (_, Err(e), _, _) => Outcome::Var(e),
            (_, _, Err(e), _) => Outcome::Var(e),
            (_, _, _, Err(e)) => Outcome::Var(e),
            (Some(memory), Ok(version), Ok(log_stream), Ok(log_group)) => Outcome::Made(
                ConfigView {
                    endpoint: endpoint@,
                    function_name: function_name@,
                    memory,
                    version: version@,
                    log_stream: log_stream@,
                    log_group: log_group@,
                },
            ),
        },
    }
}

/// `made` is what comes of an environment.
pub open spec fn comes_of<E>(made: Result<Config, ConfigError<E>>, env: Environment<E>) -> bool {
    &&& outcome(made) == config_from(env)
    &&& made matches Err(ConfigError::Memory(e)) ==> (env.function_memory_size matches Ok(memory)
        && fault_of(memory@, e.fault))
}

/// `lookup` can be asked for each variable of a function.
pub open spec fn can_look_up<E, L: Fn(&'static str) -> Result<String, E>>(lookup: L) -> bool {
    &&& call_requires(lookup, ("AWS_LAMBDA_RUNTIME_API",))
    &&& call_requires(lookup, ("AWS_LAMBDA_FUNCTION_NAME",))
    &&& call_requires(lookup, ("AWS_LAMBDA_FUNCTION_MEMORY_SIZE",))
    &&& call_requires(lookup, ("AWS_LAMBDA_FUNCTION_VERSION",))
    &&& call_requires(lookup, ("AWS_LAMBDA_LOG_STREAM_NAME",))
    &&& call_requires(lookup, ("AWS_LAMBDA_LOG_GROUP_NAME",))
}

/// `env` is what `lookup` may give, each variable under its own name.
pub open spec fn looked_up<E, L: Fn(&'static str) -> Result<String, E>>(
    lookup: L,
    env: Environment<E>,
) -> bool {
    &&& call_ensures(lookup, ("AWS_LAMBDA_RUNTIME_API",), env.runtime_api)
    &&& call_ensures(lookup, ("AWS_LAMBDA_FUNCTION_NAME",), env.function_name)
    &&& call_ensures(lookup, ("AWS_LAMBDA_FUNCTION_MEMORY_SIZE",), env.function_memory_size)
    &&& call_ensures(lookup, ("AWS_LAMBDA_FUNCTION_VERSION",), env.function_version)
    &&& call_ensures(lookup, ("AWS_LAMBDA_LOG_STREAM_NAME",), env.log_stream_name)
    &&& call_ensures(lookup, ("AWS_LAMBDA_LOG_GROUP_NAME",), env.log_group_name)
}

impl Config {
    /// Attempts to read configuration from environment variables, of which `lookup` gives the
    /// values.
    pub fn from_env<E, L: Fn(&'static str) -> Result<String, E>>(lookup: L) -> (made: Result<
        Config,
        ConfigError<E>,
    >)
        requires
            can_look_up(lookup),
        ensures
            exists|env: Environment<E>| #[trigger]
                looked_up(lookup, env) && comes_of(made, env),
    {
        let env = Environment {
            runtime_api: lookup("AWS_LAMBDA_RUNTIME_API"),
            function_name: lookup("AWS_LAMBDA_FUNCTION_NAME"),
            function_memory_size: lookup("AWS_LAMBDA_FUNCTION_MEMORY_SIZE"),
            function_version: lookup("AWS_LAMBDA_FUNCTION_VERSION"),
            log_stream_name: lookup("AWS_LAMBDA_LOG_STREAM_NAME"),
            log_group_name: lookup("AWS_LAMBDA_LOG_GROUP_NAME"),
        };
        assert(looked_up(lookup, env));
        Config::from_environment(env)
    }

    /// The configuration that an environment holds. Where there is none, the error is that of
    /// the first variable that stands in its way.
    pub fn from_environment<E>(env: Environment<E>) -> (made: Result<Config, ConfigError<E>>)
        ensures
            comes_of(made, env),
    {
        let endpoint = match env.runtime_api {
            Ok(v) => v,
            Err(e) => return Err(ConfigError::Var(e)),
        };
        let function_name = match env.function_name {
            Ok(v) => v,
            Err(e) => return Err(ConfigError::Var(e)),
        };
        let memory = match env.function_memory_size {
            Ok(v) => v,
            Err(e) => return Err(ConfigError::Var(e)),
        };
        let memory: i32 = match parse_i32(memory.as_str()) {
            Ok(n) => n,
            Err(e) => return Err(ConfigError::Memory(e)),
        };
        let version = match env.function_version {
            Ok(v) => v,
            Err(e) => return Err(ConfigError::Var(e)),
        };
        let log_stream = match env.log_stream_name {
            Ok(v) => v,
            Err(e) => return Err(ConfigError::Var(e)),
        };
        let log_group = match env.log_group_name {
            Ok(v) => v,
            Err(e) => return Err(ConfigError::Var(e)),
        };
        Ok(Config { endpoint, function_name, memory, version, log_stream, log_group })
    }
}

/// Where a configuration is made, each field is what its own variable holds, and the amount of
/// memory is the number that its variable stands for.
pub proof fn law_each_field_is_its_variable<E>(
    env: Environment<E>,
    made: Result<Config, ConfigError<E>>,
)
    requires
        call_ensures(Config::from_environment::<E>, (env,), made),
    ensures
        made matches Ok(config) ==> {
            &&& env.runtime_api matches Ok(text) && config.endpoint@ == text@
            &&& env.function_name matches Ok(text) && config.function_name@ == text@
            &&& env.function_memory_size matches Ok(text) && decimal(text@) == Some(
                config.memory as int,
            )
            &&& env.function_version matches Ok(text) && config.version@ == text@
            &&& env.log_stream_name matches Ok(text) && config.log_stream@ == text@
            &&& env.log_group_name matches Ok(text) && config.log_group@ == text@
        },
{
}

/// A configuration is refused with the error of the first variable that stands in its way, in the
/// order in which the variables are read, and is made where none does.
pub proof fn law_first_obstacle_is_the_error<E>(
    env: Environment<E>,
    made: Result<Config, ConfigError<E>>,
)
    requires
        call_ensures(Config::from_environment::<E>, (env,), made),
    ensures
        match env.runtime_api {
            Err(e) => made == Err::<Config, _>(ConfigError::Var(e)),
            Ok(_) => match env.function_name {
                Err(e) => made == Err::<Config, _>(ConfigError::Var(e)),
                Ok(_) => match env.function_memory_size {
                    Err(e) => made == Err::<Config, _>(ConfigError::Var(e)),
                    Ok(text) => if !(decimal(text@) matches Some(n) && -0x8000_0000 <= n
                        <= 0x7fff_ffff) {
                        made matches Err(ConfigError::Memory(e)) && e@ == i32_error(text@)
                    } else {
                        match env.function_version {
                            Err(e) => made == Err::<Config, _>(ConfigError::Var(e)),
                            Ok(_) => match env.log_stream_name {
                                Err(e) => made == Err::<Config, _>(ConfigError::Var(e)),
                                Ok(_) => match env.log_group_name {
                                    Err(e) => made == Err::<Config, _>(ConfigError::Var(e)),
                                    Ok(_) => made is Ok,
                                },
                            },
                        }
                    },
                },
            },
        },
{
}

/// What is read from the environment of a process: each field is what the lookup of its own
/// variable gave, and an error is what the lookup of some variable gave.
pub proof fn law_each_variable_has_its_name<E, L: Fn(&'static str) -> Result<String, E>>(
    lookup: L,
    made: Result<Config, ConfigError<E>>,
)
    requires
        call_ensures(Config::from_env::<E, L>, (lookup,), made),
    ensures
        made matches Ok(config) ==> {
            &&& exists|text: String| #[trigger]
                call_ensures(lookup, ("AWS_LAMBDA_RUNTIME_API",), Ok::<String, E>(text))
                    && config.endpoint@ == text@
            &&& exists|text: String| #[trigger]
                call_ensures(lookup, ("AWS_LAMBDA_FUNCTION_NAME",), Ok::<String, E>(text))
                    && config.function_name@ == text@
            &&& exists|text: String| #[trigger]
                call_ensures(lookup, ("AWS_LAMBDA_FUNCTION_MEMORY_SIZE",), Ok::<String, E>(text))
                    && decimal(text@) == Some(config.memory as int)
            &&& exists|text: String| #[trigger]
                call_ensures(lookup, ("AWS_LAMBDA_FUNCTION_VERSION",), Ok::<String, E>(text))
                    && config.version@ == text@
            &&& exists|text: String| #[trigger]
                call_ensures(lookup, ("AWS_LAMBDA_LOG_STREAM_NAME",), Ok::<String, E>(text))
                    && config.log_stream@ == text@
            &&& exists|text: String| #[trigger]
                call_ensures(lookup, ("AWS_LAMBDA_LOG_GROUP_NAME",), Ok::<String, E>(text))
                    && config.log_group@ == text@
        },
        made matches Err(ConfigError::Var(e)) ==> {
            ||| call_ensures(lookup, ("AWS_LAMBDA_RUNTIME_API",), Err::<String, E>(e))
            ||| call_ensures(lookup, ("AWS_LAMBDA_FUNCTION_NAME",), Err::<String, E>(e))
            ||| call_ensures(lookup, ("AWS_LAMBDA_FUNCTION_MEMORY_SIZE",), Err::<String, E>(e))
            ||| call_ensures(lookup, ("AWS_LAMBDA_FUNCTION_VERSION",), Err::<String, E>(e))
            ||| call_ensures(lookup, ("AWS_LAMBDA_LOG_STREAM_NAME",), Err::<String, E>(e))
            ||| call_ensures(lookup, ("AWS_LAMBDA_LOG_GROUP_NAME",), Err::<String, E>(e))
        },
        made matches Err(ConfigError::Memory(e)) ==> exists|text: String| #[trigger]
            call_ensures(lookup, ("AWS_LAMBDA_FUNCTION_MEMORY_SIZE",), Ok::<String, E>(text))
                && e@ == i32_error(text@) && !(decimal(text@) matches Some(n) && -0x8000_0000 <= n
                <= 0x7fff_ffff),
{
    let env = choose|env: Environment<E>| #[trigger]
        looked_up(lookup, env) && comes_of(made, env);
    if made matches Err(ConfigError::Memory(_)) {
        assert(call_ensures(
            lookup,
            ("AWS_LAMBDA_FUNCTION_MEMORY_SIZE",),
            Ok::<String, E>(env.function_memory_size->Ok_0),
        ));
    }
    if made is Ok {
        assert(call_ensures(
            lookup,
            ("AWS_LAMBDA_RUNTIME_API",),
            Ok::<String, E>(env.runtime_api->Ok_0),
        ));
        assert(call_ensures(
            lookup,
            ("AWS_LAMBDA_FUNCTION_NAME",),
            Ok::<String, E>(env.function_name->Ok_0),
        ));
        assert(call_ensures(
            lookup,
            ("AWS_LAMBDA_FUNCTION_MEMORY_SIZE",),
            Ok::<String, E>(env.function_memory_size->Ok_0),
        ));
        assert(call_ensures(
            lookup,
            ("AWS_LAMBDA_FUNCTION_VERSION",),
            Ok::<String, E>(env.function_version->Ok_0),
        ));
        assert(call_ensures(
            lookup,
            ("AWS_LAMBDA_LOG_STREAM_NAME",),
            Ok::<String, E>(env.log_stream_name->Ok_0),
        ));
        assert(call_ensures(
            lookup,
            ("AWS_LAMBDA_LOG_GROUP_NAME",),
            Ok::<String, E>(env.log_group_name->Ok_0),
        ));
    }
}

/// A digit behind a number makes it ten times as large and adds the digit; a sign before digits
/// makes them positive or negative; nothing that holds another character is a number.
pub proof fn law_numbers_are_decimal(s: Seq<char>, digit: char)
    ensures
        ('0' <= digit <= '9') ==> decimal(seq![digit]) == Some(digit as int - '0' as int),
        ('0' <= digit <= '9') && (decimal(s) matches Some(n) && '0' <= s[0] <= '9') ==> decimal(
            s.push(digit),
        ) == Some(10 * decimal(s)->0 + (digit as int - '0' as int)),
        (decimal(s) matches Some(n) && '0' <= s[0] <= '9') ==> decimal(seq!['-'] + s) == Some(
            -decimal(s)->0,
        ) && decimal(seq!['+'] + s) == decimal(s),
        s.len() == 0 ==> decimal(s) is None,
        forall|i: int|
            0 < i < s.len() && !('0' <= #[trigger] s[i] <= '9') ==> decimal(s) is None,
        s.len() > 0 && !('0' <= s[0] <= '9') && s[0] != '+' && s[0] != '-' ==> decimal(s) is None,
{
    assert(seq![digit].drop_last() =~= seq![]);
    assert(s.push(digit).drop_last() =~= s);
    assert((seq!['-'] + s).skip(1) =~= s);
    assert((seq!['+'] + s).skip(1) =~= s);
    assert(digits_value(seq![]) == 0);
    assert forall|i: int| 0 < i < s.len() && !('0' <= #[trigger] s[i] <= '9') implies decimal(
        s,
    ) is None by {
        assert(s.skip(1)[i - 1] == s[i]);
    }
    if s.len() > 0 && '0' <= s[0] <= '9' && decimal(s) is Some {
        assert(all_digits(s));
        assert forall|i: int| 0 <= i < s.push(digit).len() && '0' <= digit <= '9' implies '0'
            <= #[trigger] s.push(digit)[i] <= '9' by {
            if i < s.len() {
                assert(s.push(digit)[i] == s[i]);
            }
        }
        assert((seq!['-'] + s)[0] == '-');
        assert((seq!['+'] + s)[0] == '+');
    }
}

/// There is a configuration if and only if every variable can be read and the amount of memory is
/// a number that fits.
pub proof fn law_every_variable_is_needed<E>(env: Environment<E>)
    ensures
        config_from(env) is Made <==> {
            &&& env.runtime_api is Ok
            &&& env.function_name is Ok
            &&& env.function_memory_size matches Ok(memory) && decimal_i32(memory@) is Some
            &&& env.function_version is Ok
            &&& env.log_stream_name is Ok
            &&& env.log_group_name is Ok
        },
{
}

/// Calls `str::parse` for `i32`, which takes an optional sign followed by only digits, in base
/// 10, and fails where the number does not fit. How it fails has a name, and is stated as far as
/// `core::num::IntErrorKind` says which kind of error a text gives.
#[verifier::external_body]
fn parse_i32(text: &str) -> (read: Result<i32, IntError>)
    ensures
        match read {
            Ok(n) => decimal_i32(text@) == Some(n as int),
            Err(e) => decimal_i32(text@) is None && e@ == i32_error(text@) && fault_of(
                text@,
                e.fault,
            ),
        },
{
    text.parse::<i32>().map_err(|e| {
        let fault = match e.kind() {
            core::num::IntErrorKind::Empty => IntFault::Empty,
            core::num::IntErrorKind::InvalidDigit => IntFault::InvalidDigit,
            core::num::IntErrorKind::PosOverflow => IntFault::PosOverflow,
            core::num::IntErrorKind::NegOverflow => IntFault::NegOverflow,
            core::num::IntErrorKind::Zero => IntFault::Zero,
            _ => IntFault::Other,
        };
        IntError { fault, message: e.to_string() }
    })
}

} // verus!
