use ldos_tables::config::{
    empty_or_evaluate, empty_or_parse, to_number, to_number_or, Config, ConfigError, ConfigValues,
    RawConfig,
};
use ldos_tables::expression::{
    eval_int, evaluate, is_splitting, list_partial_functions, PartialFunction,
};

fn raw() -> RawConfig {
    RawConfig {
        n_messages: "1024 * 64".to_string(),
        delay: String::new(),
        queue_length: "16".to_string(),
        n_producers: String::new(),
        n_consumers: String::new(),
        n_strong_observers: String::new(),
        weak_observer_delays: vec![],
        impl_name: "direct call".to_string(),
        busy_wait_iterations: String::new(),
    }
}

fn values() -> ConfigValues {
    ConfigValues {
        n_messages: Ok(10),
        delay: None,
        queue_length: Ok(4),
        n_producers: None,
        n_consumers: None,
        n_strong_observers: None,
        weak_observer_delays: vec![],
        impl_name: "x".to_string(),
        busy_wait_iterations: None,
    }
}

fn read(c: RawConfig) -> Result<Config, ConfigError> {
    Config::from_raw(c)
}

#[test]
fn expressions_are_evaluated() {
    assert_eq!(evaluate("1 + 2 * 3"), Ok(7));
    assert_eq!(evaluate("-5"), Ok(-5));
    assert_eq!(evaluate("0x10"), Ok(16));
    assert_eq!(evaluate("max(3, 4)"), Ok(4));
    assert_eq!(evaluate("min(3, 4)"), Ok(3));
    assert_eq!(evaluate("max(nan, 4)"), Ok(4));
    assert!(evaluate("").is_err());
    assert!(evaluate("1.5").is_err());
    assert!(evaluate("1 +").is_err());
    assert!(evaluate("9223372036854775807 + 1").is_err());
    assert!(evaluate("1 / 0").is_err());
}

#[test]
fn partial_functions_are_evaluated_where_they_are_defined() {
    assert_eq!(evaluate("shl(1, 10)"), Ok(1024));
    assert_eq!(evaluate("shl(1, 0)"), Ok(1));
    assert_eq!(evaluate("shl(3, 63)"), Ok(i64::MIN));
    assert_eq!(evaluate("shr(1024, 3)"), Ok(128));
    assert_eq!(evaluate("shr(0 - 1, 63)"), Ok(-1));
    assert_eq!(evaluate("math::abs(-5)"), Ok(5));
    assert_eq!(evaluate("math::abs(5)"), Ok(5));
    assert_eq!(evaluate("if(math::abs(-1.5) == 1.5, 1, 2)"), Ok(1));
    assert_eq!(evaluate("len(str::substring(\"hello\", 1, 3))"), Ok(2));
    assert_eq!(evaluate("len(str::substring(\"hello\", 1))"), Ok(4));
    assert_eq!(evaluate("len(str::substring(\"h\u{e9}llo\", 1, 3))"), Ok(2));
    assert_eq!(evaluate("shl(math::abs(-1), shr(8, 1))"), Ok(16));
}

#[test]
fn overflowing_calls_wrap() {
    assert_eq!(evaluate("shl(1, 64)"), Ok(1));
    assert_eq!(evaluate("shl(5, 67)"), Ok(40));
    assert_eq!(evaluate("shl(1, -1)"), Ok(i64::MIN));
    assert_eq!(evaluate("shr(1, 64)"), Ok(1));
    assert_eq!(evaluate("shr(1024, 0 - 61)"), Ok(128));
    assert_eq!(evaluate("math::abs(-9223372036854775807 - 1)"), Ok(i64::MIN));
    assert_eq!(evaluate("s/**/hl(1, 64)"), Ok(1));
    assert_eq!(evaluate("s//\nhl(1, 64)"), Ok(1));
}

#[test]
fn characters_are_not_split() {
    let why = Err("Error: a position is in the middle of a character".to_string());
    assert_eq!(evaluate("len(str::substring(\"\u{e9}\", 1))"), why);
    assert_eq!(evaluate("len(str::substring(\"\u{e9}\", 0, 1))"), why);
}

#[test]
fn other_errors_are_those_of_the_built_in_functions() {
    for text in [
        "shl(1)",
        "shl(1, 2, 3)",
        "shr(1.5, 2)",
        "shl(1, true)",
        "math::abs(true)",
        "math::abs(1, 2)",
        "len(str::substring(\"abc\", 2, 1))",
        "len(str::substring(\"abc\", 0, 9))",
        "len(str::substring(\"abc\", -1, true))",
        "len(str::substring(\"\u{e9}\", 1, true))",
        "len(str::substring(1, 2))",
        "shift(1, 2)",
        "2 ^ 3",
    ] {
        let expected = evalexpr::eval_int(text).unwrap_err().to_string();
        assert_eq!(eval_int(text, list_partial_functions()), Err(expected));
    }
}

#[test]
fn calls_are_taken_over_exactly_where_the_function_may_abort() {
    let int = |n: i64| (Some(n), None);
    let text = |t: &str| (None, Some(t.to_string()));
    for n in [i64::MIN, -65, -64, -1, 64, 65, 127, 128, 1 << 40, i64::MAX] {
        for a in [0, 1, -1, 77, i64::MIN, i64::MAX] {
            let left = PartialFunction::ShiftLeft.call(None, vec![int(a), int(n)]);
            assert_eq!(left, Ok(a.wrapping_shl(n as u32)));
            let right = PartialFunction::ShiftRight.call(None, vec![int(a), int(n)]);
            assert_eq!(right, Ok(a.wrapping_shr(n as u32)));
        }
    }
    for shift in [PartialFunction::ShiftLeft, PartialFunction::ShiftRight] {
        assert_eq!(shift.call(None, vec![int(1), int(0)]), Err(None));
        assert_eq!(shift.call(None, vec![int(1), int(63)]), Err(None));
        assert_eq!(shift.call(None, vec![text("a"), int(64)]), Err(None));
        assert_eq!(shift.call(None, vec![int(1), int(64), int(1)]), Err(None));
        assert_eq!(shift.call(Some(64), vec![]), Err(None));
    }
    let abs = PartialFunction::Abs;
    assert_eq!(abs.call(Some(i64::MIN), vec![]), Ok(i64::MIN.wrapping_abs()));
    assert_eq!(abs.call(Some(i64::MIN + 1), vec![]), Err(None));
    assert_eq!(abs.call(None, vec![int(i64::MIN)]), Err(None));
    let part = PartialFunction::Substring;
    assert!(matches!(part.call(None, vec![text("\u{e9}"), int(1)]), Err(Some(_))));
    assert!(matches!(part.call(None, vec![text("\u{e9}"), int(0), int(1)]), Err(Some(_))));
    assert_eq!(part.call(None, vec![text("\u{e9}"), int(0), int(2)]), Err(None));
    assert_eq!(part.call(None, vec![text("\u{e9}"), int(1), text("x")]), Err(None));
    assert!(is_splitting("a\u{20ac}b", 2, None));
    assert!(!is_splitting("a\u{20ac}b", 1, Some(4)));
    assert!(!is_splitting("a\u{20ac}b", 2, Some(9)));
    assert!(!is_splitting("a\u{20ac}b", -1, None));
}

#[test]
fn comments_and_names_in_texts_are_read() {
    assert_eq!(evaluate("10 // ten"), Ok(10));
    assert_eq!(evaluate("10 /* ten */ + 1"), Ok(11));
    assert_eq!(evaluate("len(\"shl\")"), Ok(3));
    let mut r = raw();
    r.n_messages = "shl(1, 10) // a thousand or so".to_string();
    assert_eq!(read(r).unwrap().n_messages, 1024);
    let mut r = raw();
    r.n_messages = "shl(1, 74)".to_string();
    assert_eq!(read(r).unwrap().n_messages, 1024);
}

#[test]
fn operations_of_open_precision_are_evaluated() {
    assert_eq!(evaluate("if(2 ^ 3 > 7.5, 1, 2)"), Ok(1));
    assert_eq!(evaluate("if(math::ln(1) < 0.5, 3, 4)"), Ok(3));
    assert_eq!(evaluate("if(math::sqrt(16) == 4.0, 5, 6)"), Ok(5));
}

/// A number that converts as it likes.
#[derive(Debug, PartialEq)]
struct Even(i64);

impl TryFrom<i64> for Even {
    type Error = String;

    fn try_from(v: i64) -> Result<Self, String> {
        if v % 2 == 0 {
            Ok(Even(v))
        } else {
            Err("odd".to_string())
        }
    }
}

#[test]
fn conversion_of_the_type_decides() {
    assert_eq!(empty_or_parse::<Even>("2 * 3", Even(1)).unwrap(), Even(6));
    assert_eq!(empty_or_parse::<Even>("", Even(1)).unwrap(), Even(1));
    assert!(matches!(
        empty_or_parse::<Even>("7", Even(1)),
        Err(ConfigError::OutOfRange { value: 7 })
    ));
}

#[test]
fn numbers_have_to_fit() {
    assert_eq!(to_number::<u32>(Ok(7)).unwrap(), 7);
    assert_eq!(to_number::<u32>(Ok(u32::MAX as i64)).unwrap(), u32::MAX);
    assert!(matches!(
        to_number::<u32>(Ok(u32::MAX as i64 + 1)),
        Err(ConfigError::OutOfRange { value: 4294967296 })
    ));
    assert!(matches!(to_number::<usize>(Ok(-1)), Err(ConfigError::OutOfRange { value: -1 })));
    match to_number::<u64>(Err("why".to_string())) {
        Err(ConfigError::Eval { message }) => assert_eq!(message, "why"),
        _ => panic!("should be an error"),
    }
    assert_eq!(to_number_or::<u64>(None, 3).unwrap(), 3);
    assert_eq!(to_number_or::<u64>(Some(Ok(4)), 3).unwrap(), 4);
}

#[test]
fn empty_expression_is_the_default() {
    assert_eq!(empty_or_evaluate(""), None);
    assert_eq!(empty_or_evaluate("2 + 2"), Some(Ok(4)));
    assert_eq!(empty_or_parse::<u32>("", 64).unwrap(), 64);
    assert_eq!(empty_or_parse::<u32>("8 * 2", 64).unwrap(), 16);
    assert!(empty_or_parse::<u32>(" ", 64).is_err());
    assert!(empty_or_parse::<u32>("0 - 1", 64).is_err());
}

#[test]
fn defaults_are_taken() {
    let c = read(raw()).unwrap();
    assert_eq!(c.n_messages, 65536);
    assert_eq!(c.delay, 0);
    assert_eq!(c.queue_length, 16);
    assert_eq!(c.n_producers, 1);
    assert_eq!(c.n_consumers, 1);
    assert_eq!(c.n_strong_observers, 0);
    assert!(c.weak_observer_delays.is_empty());
    assert_eq!(c.impl_name, "direct call");
    assert_eq!(c.busy_wait_iterations, 64);
}

#[test]
fn all_fields_are_read() {
    let mut r = raw();
    r.delay = "1000 * 1000".to_string();
    r.n_producers = "2".to_string();
    r.n_consumers = "3".to_string();
    r.n_strong_observers = "1 + 1".to_string();
    r.weak_observer_delays = vec!["10".to_string(), String::new(), "5 * 5".to_string()];
    r.busy_wait_iterations = "7".to_string();
    let c = read(r).unwrap();
    assert_eq!(c.delay, 1_000_000);
    assert_eq!(c.n_producers, 2);
    assert_eq!(c.n_consumers, 3);
    assert_eq!(c.n_strong_observers, 2);
    assert_eq!(c.weak_observer_delays, vec![10, 0, 25]);
    assert_eq!(c.busy_wait_iterations, 7);
}

#[test]
fn reading_twice_gives_the_same() {
    let a = read(raw()).unwrap();
    let b = read(raw()).unwrap();
    assert_eq!(format!("{:?}", a), format!("{:?}", b));
}

#[test]
fn mandatory_fields_may_not_be_empty() {
    let mut r = raw();
    r.n_messages = String::new();
    assert!(matches!(read(r), Err(ConfigError::Eval { .. })));
    let mut r = raw();
    r.queue_length = String::new();
    assert!(matches!(read(r), Err(ConfigError::Eval { .. })));
}

#[test]
fn bad_fields_are_refused() {
    let mut r = raw();
    r.n_messages = "0 - 1".to_string();
    assert!(matches!(read(r), Err(ConfigError::OutOfRange { value: -1 })));
    let mut r = raw();
    r.busy_wait_iterations = "4294967296".to_string();
    assert!(matches!(read(r), Err(ConfigError::OutOfRange { value: 4294967296 })));
    let mut r = raw();
    r.weak_observer_delays = vec!["1".to_string(), "ten".to_string()];
    assert!(matches!(read(r), Err(ConfigError::Eval { .. })));
}

#[test]
fn each_number_can_be_at_fault() {
    let faults: [fn(&mut RawConfig, &str); 8] = [
        |r, bad| r.n_messages = bad.to_string(),
        |r, bad| r.delay = bad.to_string(),
        |r, bad| r.queue_length = bad.to_string(),
        |r, bad| r.n_producers = bad.to_string(),
        |r, bad| r.n_consumers = bad.to_string(),
        |r, bad| r.n_strong_observers = bad.to_string(),
        |r, bad| r.weak_observer_delays = vec!["1".to_string(), bad.to_string()],
        |r, bad| r.busy_wait_iterations = bad.to_string(),
    ];
    for fault in faults {
        let mut r = raw();
        fault(&mut r, "0 - 1");
        assert!(matches!(read(r), Err(ConfigError::OutOfRange { value: -1 })));
        let mut r = raw();
        fault(&mut r, "1 +");
        assert!(matches!(read(r), Err(ConfigError::Eval { .. })));
    }
    let mut r = raw();
    r.impl_name = "1 +".to_string();
    assert_eq!(read(r).unwrap().impl_name, "1 +");
}

#[test]
fn first_fault_decides() {
    let mut v = values();
    v.weak_observer_delays = vec![Some(Ok(1)), Some(Ok(-2)), Some(Err("late".to_string()))];
    v.busy_wait_iterations = Some(Ok(-9));
    assert!(matches!(Config::from_values(v), Err(ConfigError::OutOfRange { value: -2 })));
    let mut v = values();
    v.queue_length = Ok(-3);
    v.n_producers = Some(Ok(-4));
    assert!(matches!(Config::from_values(v), Err(ConfigError::OutOfRange { value: -3 })));
    let mut v = values();
    v.n_messages = Err("first".to_string());
    v.delay = Some(Ok(-1));
    match Config::from_values(v) {
        Err(e) => assert_eq!(e.message(), "first"),
        Ok(_) => panic!("should be an error"),
    }
    assert_eq!(Config::from_values(values()).unwrap().n_messages, 10);
}

#[test]
fn errors_have_a_message() {
    let e = ConfigError::OutOfRange { value: 5 };
    assert_eq!(e.message(), "out of range integral type conversion attempted");
    assert_eq!(e.message(), u8::try_from(300i64).unwrap_err().to_string());
}

#[test]
fn lists_are_read_in_order() {
    let mut second = raw();
    second.n_messages = "2".to_string();
    let configs = Config::from_raw_all(vec![raw(), second]).unwrap();
    assert_eq!(configs.len(), 2);
    assert_eq!(configs[0].n_messages, 65536);
    assert_eq!(configs[1].n_messages, 2);
    assert!(Config::from_raw_all(vec![]).unwrap().is_empty());
    let mut bad = raw();
    bad.n_messages = "0 - 7".to_string();
    let mut worse = raw();
    worse.n_messages = "?".to_string();
    assert!(matches!(
        Config::from_raw_all(vec![raw(), bad, worse]),
        Err(ConfigError::OutOfRange { value: -7 })
    ));
}
