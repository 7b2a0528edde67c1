//! The configuration of one benchmark, and how it is read from expressions.
use crate::expression::{
    eval_int_result, evaluate, evaluates_to, evaluation_view, reproducible,
};
use vstd::prelude::*;
use vstd::std_specs::convert::TryFromSpec;

verus! {

/// A configuration as it is written: every number is an integer expression. Some may be left empty.
#[derive(Debug)]
pub struct RawConfig {
    pub n_messages: String,
    pub delay: String,
    pub queue_length: String,
    pub n_producers: String,
    pub n_consumers: String,
    pub n_strong_observers: String,
    pub weak_observer_delays: Vec<String>,
    pub impl_name: String,
    pub busy_wait_iterations: String,
}

/// A configuration. Delays are in nanoseconds.
#[derive(Debug)]
pub struct Config {
    pub n_messages: usize,
    pub delay: u64,
    pub queue_length: usize,
    pub n_producers: usize,
    pub n_consumers: usize,
    pub n_strong_observers: usize,
    pub weak_observer_delays: Vec<usize>,
    pub impl_name: String,
    pub busy_wait_iterations: u32,
}

/// The contents of a [`Config`].
#[verifier::ext_equal]
pub struct ConfigView {
    pub n_messages: usize,
    pub delay: u64,
    pub queue_length: usize,
    pub n_producers: usize,
    pub n_consumers: usize,
    pub n_strong_observers: usize,
    pub weak_observer_delays: Seq<usize>,
    pub impl_name: Seq<char>,
    pub busy_wait_iterations: u32,
}

impl View for Config {
    type V = ConfigView;

    open spec fn view(&self) -> ConfigView {
        ConfigView {
            n_messages: self.n_messages,
            delay: self.delay,
            queue_length: self.queue_length,
            n_producers: self.n_producers,
            n_consumers: self.n_consumers,
            n_strong_observers: self.n_strong_observers,
            weak_observer_delays: self.weak_observer_delays@,
            impl_name: self.impl_name@,
            busy_wait_iterations: self.busy_wait_iterations,
        }
    }
}

/// Why a configuration cannot be read.
#[derive(Debug)]
pub enum ConfigError {
    /// An expression has no integer value.
    Eval { message: String },
    /// The value of an expression does not fit its field.
    OutOfRange { value: i64 },
}

/// The contents of a [`ConfigError`].
pub enum ConfigFault {
    Eval { message: Seq<char> },
    OutOfRange { value: i64 },
}

impl View for ConfigError {
    type V = ConfigFault;

    open spec fn view(&self) -> ConfigFault {
        match self {
            ConfigError::Eval { message } => ConfigFault::Eval { message: message@ },
            ConfigError::OutOfRange { value } => ConfigFault::OutOfRange { value: *value },
        }
    }
}

impl ConfigError {
    /// What to tell the user.
    pub fn message(&self) -> (text: String)
        ensures
            text@ == match self@ {
                ConfigFault::Eval { message } => message,
                ConfigFault::OutOfRange { .. } =>
                    "out of range integral type conversion attempted"@,
            },
    {
        match self {
            ConfigError::Eval { message } => message.clone(),
            ConfigError::OutOfRange { .. } => {
                "out of range integral type conversion attempted".to_owned()
            },
        }
    }
}

/// The outcome of reading something, with the error by its contents.
pub open spec fn read_view<T>(r: Result<T, ConfigError>) -> Result<T, ConfigFault> {
    match r {
        Ok(t) => Ok(t),
        Err(e) => Err(e@),
    }
}

/// The number that an evaluated expression stands for in a field of type `T`.
pub open spec fn number<T: TryFrom<i64>>(value: Result<i64, Seq<char>>) -> Result<T, ConfigFault> {
    match value {
        Ok(v) => match T::try_from_spec(v) {
            Ok(t) => Ok(t),
            Err(_) => Err(ConfigFault::OutOfRange { value: v }),
        },
        Err(message) => Err(ConfigFault::Eval { message }),
    }
}

/// The number that an expression stands for that may be left empty (`None`).
pub open spec fn number_or<T: TryFrom<i64>>(
    value: Option<Result<i64, Seq<char>>>,
    default: T,
) -> Result<T, ConfigFault> {
    match value {
        Some(value) => number::<T>(value),
        None => Ok(default),
    }
}

/// An evaluated expression that may have been left empty, with the error by its contents.
pub open spec fn optional_view(value: Option<Result<i64, String>>) -> Option<
    Result<i64, Seq<char>>,
> {
    match value {
        Some(value) => Some(evaluation_view(value)),
        None => None,
    }
}

/// Whether `r` can be what an evaluated expression stands for in a field of type `T`, whose
/// conversion from an integer decides which values fit.
pub open spec fn converts_to<T: TryFrom<i64>>(
    value: Result<i64, Seq<char>>,
    r: Result<T, ConfigFault>,
) -> bool {
    match value {
        Ok(v) => exists|converted: Result<T, T::Error>| #[trigger]
            call_ensures(T::try_from, (v,), converted) && r == match converted {
                Ok(t) => Ok::<T, ConfigFault>(t),
                Err(_) => Err(ConfigFault::OutOfRange { value: v }),
            },
        Err(message) => r == Err::<T, ConfigFault>(ConfigFault::Eval { message }),
    }
}

/// Whether `r` can be what an expression stands for that may be left empty (`None`).
pub open spec fn converts_to_or<T: TryFrom<i64>>(
    value: Option<Result<i64, Seq<char>>>,
    default: T,
    r: Result<T, ConfigFault>,
) -> bool {
    match value {
        Some(value) => converts_to::<T>(value, r),
        None => r == Ok::<T, ConfigFault>(default),
    }
}

/// Turns the value of an expression into a number of the type of its field.
pub fn to_number<T: TryFrom<i64>>(value: Result<i64, String>) -> (r: Result<T, ConfigError>)
    ensures
        converts_to::<T>(evaluation_view(value), read_view(r)),
        T::obeys_try_from_spec() ==> read_view(r) == number::<T>(evaluation_view(value)),
{
    match value {
        Ok(v) => match T::try_from(v) {
            Ok(t) => Ok(t),
            Err(_) => Err(ConfigError::OutOfRange { value: v }),
        },
        Err(message) => Err(ConfigError::Eval { message }),
    }
}

/// Turns the value of an expression into a number, or takes the default where it was left empty.
pub fn to_number_or<T: TryFrom<i64>>(value: Option<Result<i64, String>>, default: T) -> (r: Result<
    T,
    ConfigError,
>)
    ensures
        converts_to_or::<T>(optional_view(value), default, read_view(r)),
        T::obeys_try_from_spec() ==> read_view(r) == number_or::<T>(optional_view(value), default),
{
    match value {
        Some(value) => to_number(value),
        None => Ok(default),
    }
}

/// Whether `value` can be the value of an expression that may be left empty.
pub open spec fn optionally_evaluates_to(
    s: Seq<char>,
    value: Option<Result<i64, String>>,
) -> bool {
    match value {
        Some(value) => s.len() > 0 && evaluates_to(s, value),
        None => s.len() == 0,
    }
}

/// Evaluates an expression unless it is empty.
pub fn empty_or_evaluate(s: &str) -> (value: Option<Result<i64, String>>)
    ensures
        optionally_evaluates_to(s@, value),
{
    if s.is_empty() {
        None
    } else {
        Some(evaluate(s))
    }
}

/// Whether `r` can be the outcome of reading an expression that may be left empty.
pub open spec fn number_reads_as<T: TryFrom<i64>>(
    s: Seq<char>,
    default: T,
    r: Result<T, ConfigFault>,
) -> bool {
    exists|value: Option<Result<i64, String>>| #[trigger]
        optionally_evaluates_to(s, value) && converts_to_or::<T>(
            optional_view(value),
            default,
            r,
        ) && (T::obeys_try_from_spec() ==> r == number_or::<T>(optional_view(value), default))
}

/// Reads an expression that may be left empty, in which case it stands for the default.
pub fn empty_or_parse<T: TryFrom<i64>>(s: &str, default: T) -> (r: Result<T, ConfigError>)
    ensures
        s@.len() == 0 ==> r == Ok::<T, ConfigError>(default),
        number_reads_as::<T>(s@, default, read_view(r)),
{
    let value = empty_or_evaluate(s);
    to_number_or(value, default)
}

/// An empty expression stands for the default, and on any other the default has no influence.
pub proof fn law_default_is_for_empty_expressions<T: TryFrom<i64>>(
    s: Seq<char>,
    a: T,
    b: T,
    r: Result<T, ConfigFault>,
)
    ensures
        s.len() == 0 ==> (number_reads_as::<T>(s, a, r) <==> r == Ok::<T, ConfigFault>(a)),
        s.len() > 0 ==> (number_reads_as::<T>(s, a, r) <==> number_reads_as::<T>(s, b, r)),
{
    if s.len() == 0 {
        assert(optionally_evaluates_to(s, None));
    } else {
        lemma_default_has_no_influence::<T>(s, a, b, r);
        lemma_default_has_no_influence::<T>(s, b, a, r);
    }
}

proof fn lemma_default_has_no_influence<T: TryFrom<i64>>(
    s: Seq<char>,
    a: T,
    b: T,
    r: Result<T, ConfigFault>,
)
    requires
        s.len() > 0,
    ensures
        number_reads_as::<T>(s, a, r) ==> number_reads_as::<T>(s, b, r),
{
    if number_reads_as::<T>(s, a, r) {
        let value = choose|value: Option<Result<i64, String>>| #[trigger]
            optionally_evaluates_to(s, value) && converts_to_or::<T>(
                optional_view(value),
                a,
                r,
            ) && (T::obeys_try_from_spec() ==> r == number_or::<T>(optional_view(value), a));
        assert(converts_to_or::<T>(optional_view(value), b, r));
    }
}

/// What an expression stands for that is not empty depends on the expression alone: on neither the
/// default nor the time it is read, as long as it keeps to operations whose result is fully specified.
pub proof fn law_reading_a_number_is_reproducible<T: TryFrom<i64>>(
    s: Seq<char>,
    default: T,
    r: Result<T, ConfigFault>,
)
    requires
        T::obeys_try_from_spec(),
        reproducible(s),
        s.len() > 0,
        number_reads_as::<T>(s, default, r),
    ensures
        r == number::<T>(eval_int_result(s)),
{
}

/// A configuration whose expressions are evaluated.
#[derive(Debug)]
pub struct ConfigValues {
    pub n_messages: Result<i64, String>,
    pub delay: Option<Result<i64, String>>,
    pub queue_length: Result<i64, String>,
    pub n_producers: Option<Result<i64, String>>,
    pub n_consumers: Option<Result<i64, String>>,
    pub n_strong_observers: Option<Result<i64, String>>,
    pub weak_observer_delays: Vec<Option<Result<i64, String>>>,
    pub impl_name: String,
    pub busy_wait_iterations: Option<Result<i64, String>>,
}

/// The delays that a list of evaluated expressions stands for, or the first fault in it.
pub open spec fn delays_of(values: Seq<Option<Result<i64, String>>>) -> Result<
    Seq<usize>,
    ConfigFault,
>
    decreases values.len(),
{
    if values.len() == 0 {
        Ok(Seq::empty())
    } else {
        match delays_of(values.drop_last()) {
            Ok(delays) => match number_or::<usize>(optional_view(values.last()), 0) {
                Ok(d) => Ok(delays.push(d)),
                Err(e) => Err(e),
            },
            Err(e) => Err(e),
        }
    }
}

impl ConfigValues {
    /// The configuration that these values stand for, or the first fault in them, in the order in
    /// which the fields are read.
    pub open spec fn config(self) -> Result<ConfigView, ConfigFault> {
        match number::<usize>(evaluation_view(self.n_messages)) {
            Err(e) => Err(e),
            Ok(n_messages) => match number_or::<u64>(optional_view(self.delay), 0) {
                Err(e) => Err(e),
                Ok(delay) => match number::<usize>(evaluation_view(self.queue_length)) {
                    Err(e) => Err(e),
                    Ok(queue_length) => self.config_with(n_messages, delay, queue_length),
                },
            },
        }
    }

    /// The configuration, once the first three fields are read.
    pub open spec fn config_with(self, n_messages: usize, delay: u64, queue_length: usize) -> Result<
        ConfigView,
        ConfigFault,
    > {
        match number_or::<usize>(optional_view(self.n_producers), 1) {
            Err(e) => Err(e),
            Ok(n_producers) => match number_or::<usize>(optional_view(self.n_consumers), 1) {
                Err(e) => Err(e),
                Ok(n_consumers) => match number_or::<usize>(
                    optional_view(self.n_strong_observers),
                    0,
                ) {
                    Err(e) => Err(e),
                    Ok(n_strong_observers) => match delays_of(self.weak_observer_delays@) {
                        Err(e) => Err(e),
                        Ok(weak_observer_delays) => match number_or::<u32>(
                            optional_view(self.busy_wait_iterations),
                            64,
                        ) {
                            Err(e) => Err(e),
                            Ok(busy_wait_iterations) => Ok(
                                ConfigView {
                                    n_messages,
                                    delay,
                                    queue_length,
                                    n_producers,
                                    n_consumers,
                                    n_strong_observers,
                                    weak_observer_delays,
                                    impl_name: self.impl_name@,
                                    busy_wait_iterations,
                                },
                            ),
                        },
                    },
                },
            },
        }
    }
}

/// The outcome of reading a configuration, by its contents.
pub open spec fn config_view(r: Result<Config, ConfigError>) -> Result<ConfigView, ConfigFault> {
    match r {
        Ok(c) => Ok(c@),
        Err(e) => Err(e@),
    }
}

/// Turns the values of the weak observers' delays into numbers. An empty one is no delay.
fn to_delays(values: &Vec<Option<Result<i64, String>>>) -> (r: Result<Vec<usize>, ConfigError>)
    ensures
        match r {
            Ok(delays) => delays_of(values@) == Ok::<Seq<usize>, ConfigFault>(delays@),
            Err(e) => delays_of(values@) == Err::<Seq<usize>, ConfigFault>(e@),
        },
{
    let mut delays: Vec<usize> = Vec::new();
    let ghost all = values@;
    let mut i: usize = 0;
    while i < values.len()
        invariant
            i <= values.len(),
            all == values@,
            delays_of(all.take(i as int)) == Ok::<Seq<usize>, ConfigFault>(delays@),
        decreases values.len() - i,
    {
        assert(all.take(i + 1).drop_last() =~= all.take(i as int));
        assert(all.take(i + 1).last() == values@[i as int]);
        match to_number_or::<usize>(copy_value(&values[i]), 0) {
            Ok(d) => delays.push(d),
            Err(e) => {
                proof {
                    lemma_first_fault(all, i + 1);
                }
                return Err(e);
            },
        }
        i += 1;
    }
    assert(all.take(i as int) =~= all);
    Ok(delays)
}

fn copy_value(value: &Option<Result<i64, String>>) -> (copy: Option<Result<i64, String>>)
    ensures
        optional_view(copy) == optional_view(*value),
{
    match value {
        Some(Ok(v)) => Some(Ok(*v)),
        Some(Err(e)) => Some(Err(e.clone())),
        None => None,
    }
}

proof fn lemma_first_fault(values: Seq<Option<Result<i64, String>>>, n: int)
    requires
        0 <= n <= values.len(),
        delays_of(values.take(n)) is Err,
    ensures
        delays_of(values) == delays_of(values.take(n)),
    decreases values.len() - n,
{
    if n == values.len() {
        assert(values.take(n) =~= values);
    } else {
        assert(values.take(n + 1).drop_last() =~= values.take(n));
        lemma_first_fault(values, n + 1);
    }
}

impl Config {
    /// Makes a configuration of evaluated expressions.
    pub fn from_values(c: ConfigValues) -> (r: Result<Config, ConfigError>)
        ensures
            config_view(r) == c.config(),
    {
        let n_messages = match to_number::<usize>(c.n_messages) {
            Ok(n) => n,
            Err(e) => return Err(e),
        };
        let delay = match to_number_or::<u64>(c.delay, 0) {
            Ok(n) => n,
            Err(e) => return Err(e),
        };
        let queue_length = match to_number::<usize>(c.queue_length) {
            Ok(n) => n,
            Err(e) => return Err(e),
        };
        let n_producers = match to_number_or::<usize>(c.n_producers, 1) {
            Ok(n) => n,
            Err(e) => return Err(e),
        };
        let n_consumers = match to_number_or::<usize>(c.n_consumers, 1) {
            Ok(n) => n,
            Err(e) => return Err(e),
        };
        let n_strong_observers = match to_number_or::<usize>(c.n_strong_observers, 0) {
            Ok(n) => n,
            Err(e) => return Err(e),
        };
        let weak_observer_delays = match to_delays(&c.weak_observer_delays) {
            Ok(d) => d,
            Err(e) => return Err(e),
        };
        let busy_wait_iterations = match to_number_or::<u32>(c.busy_wait_iterations, 64) {
            Ok(n) => n,
            Err(e) => return Err(e),
        };
        Ok(
            Config {
                n_messages,
                delay,
                queue_length,
                n_producers,
                n_consumers,
                n_strong_observers,
                weak_observer_delays,
                impl_name: c.impl_name,
                busy_wait_iterations,
            },
        )
    }
}

impl RawConfig {
    /// Whether `values` can be the values of the expressions.
    pub open spec fn evaluates_to(self, values: ConfigValues) -> bool {
        &&& evaluates_to(self.n_messages@, values.n_messages)
        &&& optionally_evaluates_to(self.delay@, values.delay)
        &&& evaluates_to(self.queue_length@, values.queue_length)
        &&& optionally_evaluates_to(self.n_producers@, values.n_producers)
        &&& optionally_evaluates_to(self.n_consumers@, values.n_consumers)
        &&& optionally_evaluates_to(self.n_strong_observers@, values.n_strong_observers)
        &&& values.weak_observer_delays@.len() == self.weak_observer_delays@.len()
        &&& forall|i: int|
            0 <= i < self.weak_observer_delays@.len() ==> optionally_evaluates_to(
                (#[trigger] self.weak_observer_delays@[i])@,
                values.weak_observer_delays@[i],
            )
        &&& values.impl_name@ == self.impl_name@
        &&& optionally_evaluates_to(self.busy_wait_iterations@, values.busy_wait_iterations)
    }

    /// Whether `r` can be the outcome of reading this configuration.
    pub open spec fn reads_as(self, r: Result<ConfigView, ConfigFault>) -> bool {
        exists|values: ConfigValues| #[trigger] self.evaluates_to(values) && r == values.config()
    }

    /// Evaluates every expression.
    pub fn evaluate(self) -> (values: ConfigValues)
        ensures
            self.evaluates_to(values),
    {
        let mut weak_observer_delays: Vec<Option<Result<i64, String>>> = Vec::new();
        let mut i: usize = 0;
        while i < self.weak_observer_delays.len()
            invariant
                i <= self.weak_observer_delays.len(),
                weak_observer_delays.len() == i,
                forall|j: int|
                    0 <= j < i ==> optionally_evaluates_to(
                        (#[trigger] self.weak_observer_delays@[j])@,
                        weak_observer_delays@[j],
                    ),
            decreases self.weak_observer_delays.len() - i,
        {
            let d = empty_or_evaluate(self.weak_observer_delays[i].as_str());
            weak_observer_delays.push(d);
            i += 1;
        }
        ConfigValues {
            n_messages: evaluate(self.n_messages.as_str()),
            delay: empty_or_evaluate(self.delay.as_str()),
            queue_length: evaluate(self.queue_length.as_str()),
            n_producers: empty_or_evaluate(self.n_producers.as_str()),
            n_consumers: empty_or_evaluate(self.n_consumers.as_str()),
            n_strong_observers: empty_or_evaluate(self.n_strong_observers.as_str()),
            weak_observer_delays,
            busy_wait_iterations: empty_or_evaluate(self.busy_wait_iterations.as_str()),
            impl_name: self.impl_name,
        }
    }
}

impl Config {
    /// Reads a configuration.
    pub fn from_raw(c: RawConfig) -> (r: Result<Config, ConfigError>)
        ensures
            c.reads_as(config_view(r)),
    {
        let values = c.evaluate();
        Config::from_values(values)
    }

    /// Reads a list of configurations. The first one that cannot be read decides the error.
    pub fn from_raw_all(raws: Vec<RawConfig>) -> (r: Result<Vec<Config>, ConfigError>)
        ensures
            match r {
                Ok(configs) => configs@.len() == raws@.len() && all_read(raws@, configs@),
                Err(e) => exists|k: int, before: Seq<Config>|
                    {
                        &&& 0 <= k < raws@.len()
                        &&& before.len() == k
                        &&& #[trigger] all_read(raws@.take(k), before)
                        &&& raws@[k].reads_as(Err(e@))
                    },
            },
    {
        let ghost all = raws@;
        let mut rest = raws;
        let mut configs: Vec<Config> = Vec::new();
        while rest.len() > 0
            invariant
                all == raws@,
                configs@.len() + rest@.len() == all.len(),
                rest@ =~= all.skip(configs@.len() as int),
                all_read(all.take(configs@.len() as int), configs@),
            decreases rest.len(),
        {
            let ghost k = configs@.len() as int;
            assert(rest@[0] == all[k]);
            let c = rest.remove(0);
            match Config::from_raw(c) {
                Ok(config) => {
                    let ghost before = configs@;
                    configs.push(config);
                    assert(rest@ =~= all.skip(k + 1));
                    assert forall|i: int| 0 <= i < configs@.len() implies all.take(
                        k + 1,
                    )[i].reads_as(Ok((#[trigger] configs@[i])@)) by {
                        if i < k {
                            assert(configs@[i] == before[i]);
                            assert(all.take(k)[i] == all[i]);
                        }
                    }
                },
                Err(e) => {
                    assert(all_read(all.take(k), configs@));
                    return Err(e);
                },
            }
        }
        assert(all.take(configs@.len() as int) =~= all);
        Ok(configs)
    }
}

/// Whether each of `configs` can be what the configuration at the same place in `raws` reads as.
pub open spec fn all_read(raws: Seq<RawConfig>, configs: Seq<Config>) -> bool {
    forall|i: int| 0 <= i < configs.len() ==> raws[i].reads_as(Ok((#[trigger] configs[i])@))
}

/// Fields that are left empty take their defaults, and the name of the implementation is taken as
/// it is written.
pub proof fn law_empty_fields_take_defaults(raw: RawConfig, c: ConfigView)
    requires
        raw.reads_as(Ok(c)),
    ensures
        c.impl_name == raw.impl_name@,
        raw.delay@.len() == 0 ==> c.delay == 0,
        raw.n_producers@.len() == 0 ==> c.n_producers == 1,
        raw.n_consumers@.len() == 0 ==> c.n_consumers == 1,
        raw.n_strong_observers@.len() == 0 ==> c.n_strong_observers == 0,
        raw.busy_wait_iterations@.len() == 0 ==> c.busy_wait_iterations == 64,
        c.weak_observer_delays.len() == raw.weak_observer_delays@.len(),
        forall|i: int|
            0 <= i < c.weak_observer_delays.len() && raw.weak_observer_delays@[i]@.len() == 0
                ==> #[trigger] c.weak_observer_delays[i] == 0,
{
    let values = choose|values: ConfigValues| #[trigger]
        raw.evaluates_to(values) && Ok::<ConfigView, ConfigFault>(c) == values.config();
    lemma_delays(values.weak_observer_delays@, c.weak_observer_delays);
    assert forall|i: int|
        0 <= i < c.weak_observer_delays.len() && raw.weak_observer_delays@[i]@.len()
            == 0 implies #[trigger] c.weak_observer_delays[i] == 0 by {
        assert(optionally_evaluates_to(
            raw.weak_observer_delays@[i]@,
            values.weak_observer_delays@[i],
        ));
    }
}

proof fn lemma_delays(values: Seq<Option<Result<i64, String>>>, delays: Seq<usize>)
    requires
        delays_of(values) == Ok::<Seq<usize>, ConfigFault>(delays),
    ensures
        delays.len() == values.len(),
        forall|i: int|
            0 <= i < values.len() ==> number_or::<usize>(optional_view(values[i]), 0) == Ok::<
                usize,
                ConfigFault,
            >(#[trigger] delays[i]),
    decreases values.len(),
{
    if values.len() > 0 {
        let front = delays_of(values.drop_last());
        lemma_delays(values.drop_last(), front->Ok_0);
        assert forall|i: int| 0 <= i < values.len() implies number_or::<usize>(
            optional_view(values[i]),
            0,
        ) == Ok::<usize, ConfigFault>(#[trigger] delays[i]) by {
            if i < values.len() - 1 {
                assert(values.drop_last()[i] == values[i]);
                assert(delays[i] == front->Ok_0[i]);
            }
        }
    }
}

/// Whether one of the delays that a list of evaluated expressions stands for is at fault.
pub open spec fn some_delay_is_at_fault(values: Seq<Option<Result<i64, String>>>) -> bool {
    exists|i: int|
        0 <= i < values.len() && number_or::<usize>(
            optional_view(#[trigger] values[i]),
            0,
        ) is Err
}

/// A configuration cannot be read exactly where one of its numbers is at fault. The name of the
/// implementation never is.
pub proof fn law_reading_fails_only_by_a_number(raw: RawConfig, r: Result<ConfigView, ConfigFault>)
    requires
        raw.reads_as(r),
    ensures
        exists|values: ConfigValues|
            {
                &&& #[trigger] raw.evaluates_to(values)
                &&& r == values.config()
                &&& r is Err <==> {
                    ||| number::<usize>(evaluation_view(values.n_messages)) is Err
                    ||| number_or::<u64>(optional_view(values.delay), 0) is Err
                    ||| number::<usize>(evaluation_view(values.queue_length)) is Err
                    ||| number_or::<usize>(optional_view(values.n_producers), 1) is Err
                    ||| number_or::<usize>(optional_view(values.n_consumers), 1) is Err
                    ||| number_or::<usize>(optional_view(values.n_strong_observers), 0) is Err
                    ||| some_delay_is_at_fault(values.weak_observer_delays@)
                    ||| number_or::<u32>(optional_view(values.busy_wait_iterations), 64) is Err
                }
            },
{
    let values = choose|values: ConfigValues| #[trigger]
        raw.evaluates_to(values) && r == values.config();
    lemma_delays_at_fault(values.weak_observer_delays@);
    assert(raw.evaluates_to(values));
}

proof fn lemma_delays_at_fault(values: Seq<Option<Result<i64, String>>>)
    ensures
        delays_of(values) is Err <==> some_delay_is_at_fault(values),
    decreases values.len(),
{
    if values.len() > 0 {
        let front = values.drop_last();
        lemma_delays_at_fault(front);
        if some_delay_is_at_fault(front) {
            let i = choose|i: int|
                0 <= i < front.len() && number_or::<usize>(
                    optional_view(#[trigger] front[i]),
                    0,
                ) is Err;
            assert(values[i] == front[i]);
        }
        if some_delay_is_at_fault(values) {
            let i = choose|i: int|
                0 <= i < values.len() && number_or::<usize>(
                    optional_view(#[trigger] values[i]),
                    0,
                ) is Err;
            if i < front.len() {
                assert(front[i] == values[i]);
            }
        }
        assert(values[values.len() - 1] == values.last());
    }
}

impl RawConfig {
    /// Whether the value of every expression is the same on every machine.
    pub open spec fn reproducible(self) -> bool {
        &&& reproducible(self.n_messages@)
        &&& reproducible(self.delay@)
        &&& reproducible(self.queue_length@)
        &&& reproducible(self.n_producers@)
        &&& reproducible(self.n_consumers@)
        &&& reproducible(self.n_strong_observers@)
        &&& forall|i: int|
            0 <= i < self.weak_observer_delays@.len() ==> reproducible(
                (#[trigger] self.weak_observer_delays@[i])@,
            )
        &&& reproducible(self.busy_wait_iterations@)
    }
}

/// Reading a configuration again gives the same outcome, as long as its expressions keep to
/// operations of specified precision.
pub proof fn law_reading_is_reproducible(
    raw: RawConfig,
    a: Result<ConfigView, ConfigFault>,
    b: Result<ConfigView, ConfigFault>,
)
    requires
        raw.reproducible(),
        raw.reads_as(a),
        raw.reads_as(b),
    ensures
        a == b,
{
    let v = choose|values: ConfigValues| #[trigger]
        raw.evaluates_to(values) && a == values.config();
    let w = choose|values: ConfigValues| #[trigger]
        raw.evaluates_to(values) && b == values.config();
    assert forall|i: int| 0 <= i < v.weak_observer_delays@.len() implies optional_view(
        #[trigger] v.weak_observer_delays@[i],
    ) == optional_view(w.weak_observer_delays@[i]) by {
        let text = raw.weak_observer_delays@[i]@;
        assert(optionally_evaluates_to(text, v.weak_observer_delays@[i]));
        assert(optionally_evaluates_to(text, w.weak_observer_delays@[i]));
        assert(reproducible(text));
    }
    lemma_delays_by_view(v.weak_observer_delays@, w.weak_observer_delays@);
}

proof fn lemma_delays_by_view(
    v: Seq<Option<Result<i64, String>>>,
    w: Seq<Option<Result<i64, String>>>,
)
    requires
        v.len() == w.len(),
        forall|i: int|
            0 <= i < v.len() ==> optional_view(#[trigger] v[i]) == optional_view(w[i]),
    ensures
        delays_of(v) == delays_of(w),
    decreases v.len(),
{
    if v.len() > 0 {
        assert forall|i: int| 0 <= i < v.len() - 1 implies optional_view(
            #[trigger] v.drop_last()[i],
        ) == optional_view(w.drop_last()[i]) by {
            assert(optional_view(v[i]) == optional_view(w[i]));
        }
        lemma_delays_by_view(v.drop_last(), w.drop_last());
        assert(optional_view(v[v.len() - 1]) == optional_view(w[v.len() - 1]));
    }
}

/// Whether the expression `s` can have the value `n`.
pub open spec fn stands_for(s: Seq<char>, n: int) -> bool {
    exists|v: i64| #[trigger] evaluates_to(s, Ok::<i64, String>(v)) && v == n
}

/// Each number of a configuration is, whatever its size, the value of the expression that is written
/// for it; the delay of each weak observer is that of the expression at its place.
pub proof fn law_numbers_are_those_written(raw: RawConfig, c: ConfigView)
    requires
        raw.reads_as(Ok(c)),
    ensures
        stands_for(raw.n_messages@, c.n_messages as int),
        stands_for(raw.queue_length@, c.queue_length as int),
        raw.delay@.len() > 0 ==> stands_for(raw.delay@, c.delay as int),
        raw.n_producers@.len() > 0 ==> stands_for(raw.n_producers@, c.n_producers as int),
        raw.n_consumers@.len() > 0 ==> stands_for(raw.n_consumers@, c.n_consumers as int),
        raw.n_strong_observers@.len() > 0 ==> stands_for(
            raw.n_strong_observers@,
            c.n_strong_observers as int,
        ),
        raw.busy_wait_iterations@.len() > 0 ==> stands_for(
            raw.busy_wait_iterations@,
            c.busy_wait_iterations as int,
        ),
        c.weak_observer_delays.len() == raw.weak_observer_delays@.len(),
        forall|i: int|
            0 <= i < c.weak_observer_delays.len() && raw.weak_observer_delays@[i]@.len() > 0
                ==> stands_for(
                raw.weak_observer_delays@[i]@,
                #[trigger] c.weak_observer_delays[i] as int,
            ),
{
    let values = choose|values: ConfigValues| #[trigger]
        raw.evaluates_to(values) && Ok::<ConfigView, ConfigFault>(c) == values.config();
    lemma_number_stands_for(raw.n_messages@, values.n_messages, c.n_messages as int);
    lemma_number_stands_for(raw.queue_length@, values.queue_length, c.queue_length as int);
    lemma_optional_stands_for(raw.delay@, values.delay, c.delay as int);
    lemma_optional_stands_for(raw.n_producers@, values.n_producers, c.n_producers as int);
    lemma_optional_stands_for(raw.n_consumers@, values.n_consumers, c.n_consumers as int);
    lemma_optional_stands_for(
        raw.n_strong_observers@,
        values.n_strong_observers,
        c.n_strong_observers as int,
    );
    lemma_optional_stands_for(
        raw.busy_wait_iterations@,
        values.busy_wait_iterations,
        c.busy_wait_iterations as int,
    );
    lemma_delays(values.weak_observer_delays@, c.weak_observer_delays);
    assert forall|i: int|
        0 <= i < c.weak_observer_delays.len() && raw.weak_observer_delays@[i]@.len()
            > 0 implies stands_for(
        raw.weak_observer_delays@[i]@,
        #[trigger] c.weak_observer_delays[i] as int,
    ) by {
        let text = raw.weak_observer_delays@[i]@;
        assert(optionally_evaluates_to(text, values.weak_observer_delays@[i]));
        lemma_optional_stands_for(
            text,
            values.weak_observer_delays@[i],
            c.weak_observer_delays[i] as int,
        );
    }
}

proof fn lemma_number_stands_for(s: Seq<char>, value: Result<i64, String>, n: int)
    requires
        evaluates_to(s, value),
        value matches Ok(v) && v == n,
    ensures
        stands_for(s, n),
{
    assert(evaluates_to(s, Ok::<i64, String>(value->Ok_0)));
}

proof fn lemma_optional_stands_for(s: Seq<char>, value: Option<Result<i64, String>>, n: int)
    requires
        optionally_evaluates_to(s, value),
        s.len() > 0 ==> (value matches Some(Ok(v)) && v == n),
    ensures
        s.len() > 0 ==> stands_for(s, n),
{
    if s.len() > 0 {
        lemma_number_stands_for(s, value->0, n);
    }
}

/// What is wrong with an expression that stands for a number from zero to `max`, if anything is.
pub open spec fn fault_in(s: Seq<char>, max: int) -> Option<ConfigFault> {
    match eval_int_result(s) {
        Ok(v) => if 0 <= v <= max {
            None
        } else {
            Some(ConfigFault::OutOfRange { value: v })
        },
        Err(message) => Some(ConfigFault::Eval { message }),
    }
}

/// What is wrong with such an expression that may be left empty.
pub open spec fn fault_unless_empty(s: Seq<char>, max: int) -> Option<ConfigFault> {
    if s.len() == 0 {
        None
    } else {
        fault_in(s, max)
    }
}

impl RawConfig {
    /// What is wrong with each number, in the order in which the numbers are read.
    pub open spec fn faults(self) -> Seq<Option<ConfigFault>> {
        seq![
            fault_in(self.n_messages@, usize::MAX as int),
            fault_unless_empty(self.delay@, u64::MAX as int),
            fault_in(self.queue_length@, usize::MAX as int),
            fault_unless_empty(self.n_producers@, usize::MAX as int),
            fault_unless_empty(self.n_consumers@, usize::MAX as int),
            fault_unless_empty(self.n_strong_observers@, usize::MAX as int),
        ] + self.weak_observer_delays@.map_values(
            |s: String| fault_unless_empty(s@, usize::MAX as int),
        ) + seq![fault_unless_empty(self.busy_wait_iterations@, u32::MAX as int)]
    }
}

/// A configuration of expressions whose value is fully specified can be read exactly where every
/// expression has a value that fits its field, and each number is then that value. Otherwise the
/// first fault, in the order in which the numbers are read, is the error.
pub proof fn law_reading_is_by_the_values(raw: RawConfig, r: Result<ConfigView, ConfigFault>)
    requires
        raw.reproducible(),
        raw.reads_as(r),
    ensures
        r is Ok <==> forall|i: int|
            0 <= i < raw.faults().len() ==> #[trigger] raw.faults()[i] is None,
        r matches Err(e) ==> exists|k: int|
            {
                &&& 0 <= k < raw.faults().len()
                &&& #[trigger] raw.faults()[k] == Some(e)
                &&& forall|i: int| 0 <= i < k ==> #[trigger] raw.faults()[i] is None
            },
        r matches Ok(c) ==> {
            &&& eval_int_result(raw.n_messages@) matches Ok(v) && v == c.n_messages
            &&& eval_int_result(raw.queue_length@) matches Ok(v) && v == c.queue_length
            &&& raw.delay@.len() > 0 ==> (eval_int_result(raw.delay@) matches Ok(v) && v == c.delay)
            &&& raw.n_producers@.len() > 0 ==> (eval_int_result(raw.n_producers@) matches Ok(v)
                && v == c.n_producers)
            &&& raw.n_consumers@.len() > 0 ==> (eval_int_result(raw.n_consumers@) matches Ok(v)
                && v == c.n_consumers)
            &&& raw.n_strong_observers@.len() > 0 ==> (eval_int_result(
                raw.n_strong_observers@,
            ) matches Ok(v) && v == c.n_strong_observers)
            &&& raw.busy_wait_iterations@.len() > 0 ==> (eval_int_result(
                raw.busy_wait_iterations@,
            ) matches Ok(v) && v == c.busy_wait_iterations)
            &&& forall|i: int|
                0 <= i < c.weak_observer_delays.len() && raw.weak_observer_delays@[i]@.len() > 0
                    ==> (eval_int_result(raw.weak_observer_delays@[i]@) matches Ok(v) && v
                    == #[trigger] c.weak_observer_delays[i])
        },
{
    let values = choose|values: ConfigValues| #[trigger]
        raw.evaluates_to(values) && r == values.config();
    let faults = raw.faults();
    let n = raw.weak_observer_delays@.len() as int;
    let delays = values.weak_observer_delays@;
    assert forall|i: int| 0 <= i < n implies faults[6 + i] == number_fault(
        number_or::<usize>(optional_view(#[trigger] delays[i]), 0),
    ) by {
        assert(optionally_evaluates_to(raw.weak_observer_delays@[i]@, delays[i]));
        assert(reproducible(raw.weak_observer_delays@[i]@));
    }
    assert(faults.len() == n + 7);
    assert(faults[0] == number_fault(number::<usize>(evaluation_view(values.n_messages))));
    assert(faults[1] == number_fault(number_or::<u64>(optional_view(values.delay), 0)));
    assert(faults[2] == number_fault(number::<usize>(evaluation_view(values.queue_length))));
    assert(faults[3] == number_fault(number_or::<usize>(optional_view(values.n_producers), 1)));
    assert(faults[4] == number_fault(number_or::<usize>(optional_view(values.n_consumers), 1)));
    assert(faults[5] == number_fault(
        number_or::<usize>(optional_view(values.n_strong_observers), 0),
    ));
    assert(faults[6 + n] == number_fault(
        number_or::<u32>(optional_view(values.busy_wait_iterations), 64),
    ));
    lemma_delay_faults(delays);
    if r is Ok {
        let c = r->Ok_0;
        lemma_delays(delays, c.weak_observer_delays);
        assert forall|i: int| 0 <= i < faults.len() implies #[trigger] faults[i] is None by {
            if 6 <= i < 6 + n {
                assert(number_or::<usize>(optional_view(delays[i - 6]), 0) == Ok::<
                    usize,
                    ConfigFault,
                >(c.weak_observer_delays[i - 6]));
                assert(faults[6 + (i - 6)] is None);
            }
        }
        assert forall|i: int|
            0 <= i < c.weak_observer_delays.len() && raw.weak_observer_delays@[i]@.len()
                > 0 implies (eval_int_result(raw.weak_observer_delays@[i]@) matches Ok(v) && v
            == #[trigger] c.weak_observer_delays[i]) by {
            assert(optionally_evaluates_to(raw.weak_observer_delays@[i]@, delays[i]));
            assert(reproducible(raw.weak_observer_delays@[i]@));
        }
    } else {
        let e = r->Err_0;
        let k: int = if faults[0] is Some {
            0
        } else if faults[1] is Some {
            1
        } else if faults[2] is Some {
            2
        } else if faults[3] is Some {
            3
        } else if faults[4] is Some {
            4
        } else if faults[5] is Some {
            5
        } else if delays_of(delays) is Err {
            6 + first_delay_fault(delays)
        } else {
            6 + n
        };
        if k == 6 + n {
            lemma_delays(delays, delays_of(delays)->Ok_0);
        }
        assert forall|i: int| 0 <= i < k implies #[trigger] faults[i] is None by {
            if 6 <= i < 6 + n {
                assert(faults[6 + (i - 6)] == number_fault(
                    number_or::<usize>(optional_view(delays[i - 6]), 0),
                ));
                if k == 6 + n {
                    assert(number_or::<usize>(optional_view(delays[i - 6]), 0) == Ok::<
                        usize,
                        ConfigFault,
                    >(delays_of(delays)->Ok_0[i - 6]));
                }
            }
        }
        if 6 <= k < 6 + n {
            assert(faults[6 + (k - 6)] == number_fault(
                number_or::<usize>(optional_view(delays[k - 6]), 0),
            ));
        }
        assert(faults[k] == Some(e));
    }
}

spec fn number_fault<T>(r: Result<T, ConfigFault>) -> Option<ConfigFault> {
    match r {
        Ok(_) => None,
        Err(e) => Some(e),
    }
}

spec fn first_delay_fault(values: Seq<Option<Result<i64, String>>>) -> int
    decreases values.len(),
{
    if values.len() == 0 {
        0
    } else if delays_of(values.drop_last()) is Err {
        first_delay_fault(values.drop_last())
    } else {
        values.len() - 1
    }
}

proof fn lemma_delay_faults(values: Seq<Option<Result<i64, String>>>)
    ensures
        delays_of(values) is Err ==> {
            let k = first_delay_fault(values);
            &&& 0 <= k < values.len()
            &&& number_or::<usize>(optional_view(values[k]), 0) == Err::<usize, ConfigFault>(
                delays_of(values)->Err_0,
            )
            &&& forall|i: int|
                0 <= i < k ==> number_or::<usize>(optional_view(#[trigger] values[i]), 0) is Ok
        },
    decreases values.len(),
{
    if values.len() > 0 {
        let front = values.drop_last();
        lemma_delay_faults(front);
        if delays_of(values) is Err {
            let k = first_delay_fault(values);
            if delays_of(front) is Err {
                assert forall|i: int| 0 <= i < k implies number_or::<usize>(
                    optional_view(#[trigger] values[i]),
                    0,
                ) is Ok by {
                    assert(front[i] == values[i]);
                }
                assert(front[k] == values[k]);
            } else {
                lemma_delays(front, delays_of(front)->Ok_0);
                assert forall|i: int| 0 <= i < k implies number_or::<usize>(
                    optional_view(#[trigger] values[i]),
                    0,
                ) is Ok by {
                    assert(front[i] == values[i]);
                    assert(number_or::<usize>(optional_view(front[i]), 0) == Ok::<
                        usize,
                        ConfigFault,
                    >(delays_of(front)->Ok_0[i]));
                }
            }
        }
    }
}

/// In a list of configurations that are all read, each is what the one at its place reads as, and has
/// the name of its implementation.
pub proof fn law_list_is_read_in_order(raws: Seq<RawConfig>, configs: Seq<Config>, i: int)
    requires
        all_read(raws, configs),
        0 <= i < configs.len(),
    ensures
        raws[i].reads_as(Ok(configs[i]@)),
        stands_for(raws[i].n_messages@, configs[i].n_messages as int),
        configs[i].impl_name@ == raws[i].impl_name@,
{
    law_numbers_are_those_written(raws[i], configs[i]@);
    law_empty_fields_take_defaults(raws[i], configs[i]@);
}

} // verus!
