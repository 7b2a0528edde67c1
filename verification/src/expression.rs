//! Numbers that are written as integer expressions, such as `1024 * 64`.
use evalexpr::EvalexprError::{CustomMessage, FunctionIdentifierNotFound};
use evalexpr::{
    eval_int_with_context_mut, ContextWithMutableFunctions, DefaultNumericTypes, Function,
    HashMapContext, Value,
};
use vstd::prelude::*;
use vstd::utf8::{encode_utf8, is_char_boundary};

verus! {

/// What [`evalexpr::eval_int_with_context_mut`] makes of an expression, in a context without
/// variables that holds the functions of [`partial_functions`]: its value, or the text of the error.
pub uninterp spec fn eval_int_result(s: Seq<char>) -> Result<i64, Seq<char>>;

/// Whether `w` stands in `s` at position `i`.
pub open spec fn stands_at(s: Seq<char>, w: Seq<char>, i: int) -> bool {
    0 <= i <= s.len() - w.len() && s.subrange(i, i + w.len()) == w
}

/// Whether `w` stands somewhere in `s`.
pub open spec fn mentions(s: Seq<char>, w: Seq<char>) -> bool {
    exists|i: int| stands_at(s, w, i)
}

/// Whether the mathematical function that is named at position `i` has an exact result: the square
/// root is correctly rounded, the tests and the absolute value are exact.
pub open spec fn names_exact_function(s: Seq<char>, i: int) -> bool {
    ||| stands_at(s, "math::sqrt"@, i)
    ||| stands_at(s, "math::is_"@, i)
    ||| stands_at(s, "math::abs"@, i)
}

/// Whether every character of `w` occurs in `s`.
pub open spec fn can_spell(s: Seq<char>, w: Seq<char>) -> bool {
    forall|i: int| 0 <= i < w.len() ==> s.contains(#[trigger] w[i])
}

pub open spec fn is_digit(c: char) -> bool {
    '0' <= c <= '9'
}

pub open spec fn all_digits(s: Seq<char>) -> bool {
    forall|i: int| 0 <= i < s.len() ==> is_digit(#[trigger] s[i])
}

/// Whether an expression only has integers in it, of at most eighteen digits each, that are computed
/// with, and whose least or greatest is taken.
pub open spec fn has_integers_only(s: Seq<char>) -> bool {
    &&& forall|i: int|
        0 <= i < s.len() ==> is_digit(#[trigger] s[i]) || " (),+-*/%minax"@.contains(s[i])
    &&& forall|i: int| 0 <= i <= s.len() - 19 ==> !all_digits(#[trigger] s.subrange(i, i + 19))
}

/// Whether the value of an expression is the same on every machine. The power operator and the
/// mathematical functions that are not exact are of unspecified precision, and which of two zeros of
/// different sign is the least or the greatest is open. A comment can stand in the middle of a name,
/// so where there are comments, not all characters of such a name may occur.
pub open spec fn reproducible(s: Seq<char>) -> bool {
    &&& !s.contains('^')
    &&& forall|i: int| #[trigger] stands_at(s, "math::"@, i) ==> names_exact_function(s, i)
    &&& mentions(s, "min"@) || mentions(s, "max"@) ==> has_integers_only(s)
    &&& mentions(s, "//"@) || mentions(s, "/*"@) ==> !can_spell(s, "math::"@) && !can_spell(
        s,
        "min"@,
    ) && !can_spell(s, "max"@)
}

/// The result of an evaluation, with the error text as a sequence of characters.
pub open spec fn evaluation_view(r: Result<i64, String>) -> Result<i64, Seq<char>> {
    match r {
        Ok(v) => Ok(v),
        Err(e) => Err(e@),
    }
}

/// Where a part of a text ends that is given by positions in bytes, the end being optional.
pub open spec fn end_of_part(text: Seq<char>, end: Option<i64>) -> int {
    match end {
        Some(end) => end as int,
        None => encode_utf8(text).len() as int,
    }
}

/// Whether a part of a text lies within the text, but starts or ends in the middle of a character.
pub open spec fn splits_character(text: Seq<char>, start: i64, end: Option<i64>) -> bool {
    let bytes = encode_utf8(text);
    let to = end_of_part(text, end);
    &&& 0 <= start <= to <= bytes.len()
    &&& !is_char_boundary(bytes, start as int) || !is_char_boundary(bytes, to)
}

/// Tells whether a part of a text lies within the text, but starts or ends in the middle of a
/// character.
pub fn is_splitting(text: &str, start: i64, end: Option<i64>) -> (splits: bool)
    ensures
        splits == splits_character(text@, start, end),
{
    let n: usize = text.as_bytes().len();
    if start < 0 || start as u64 > n as u64 {
        return false;
    }
    let to: usize = match end {
        Some(end) => {
            if end < start || end as u64 > n as u64 {
                return false;
            }
            end as usize
        },
        None => n,
    };
    !text.is_char_boundary(start as usize) || !text.is_char_boundary(to)
}

/// A built-in function that aborts on some of its arguments, always or where overflow is checked.
#[derive(Clone, Copy, Debug, PartialEq, Eq, Structural)]
pub enum PartialFunction {
    /// `shl`: shifts an integer to the left by a number of bits.
    ShiftLeft,
    /// `shr`: shifts an integer to the right by a number of bits.
    ShiftRight,
    /// `math::abs`: the absolute value.
    Abs,
    /// `str::substring`: the part of a text from one position to another, or to its end.
    Substring,
}

/// A member of a tuple of arguments: its value if it is an integer, and if it is a text.
pub type Member = (Option<i64>, Option<String>);

/// The integer and the number of bits of a shift by a number of bits that an integer does not have.
pub open spec fn overlong_shift(members: Seq<Member>) -> Option<(i64, i64)> {
    if members.len() != 2 {
        None
    } else {
        match (members[0].0, members[1].0) {
            (Some(a), Some(n)) => if 0 <= n < 64 {
                None
            } else {
                Some((a, n))
            },
            _ => None,
        }
    }
}

/// The number of bits that remains of an overlong shift.
pub open spec fn wrapped_count(n: i64) -> i64 {
    n & 63
}

impl PartialFunction {
    /// The value of a call that overflows: shifts wrap in the number of bits, and the absolute value
    /// of the least integer is that integer. `None` where nothing overflows. `whole` is the
    /// argument's value if it is an integer, and `members` are its members if it is a tuple.
    pub open spec fn wrapped(self, whole: Option<i64>, members: Seq<Member>) -> Option<i64> {
        match self {
            PartialFunction::ShiftLeft => match overlong_shift(members) {
                Some((a, n)) => Some(a << wrapped_count(n)),
                None => None,
            },
            PartialFunction::ShiftRight => match overlong_shift(members) {
                Some((a, n)) => Some(a >> wrapped_count(n)),
                None => None,
            },
            PartialFunction::Abs => if whole == Some(i64::MIN) {
                Some(i64::MIN)
            } else {
                None
            },
            PartialFunction::Substring => None,
        }
    }

    /// Whether a call always aborts: a text cannot be cut in the middle of a character.
    pub open spec fn aborts(self, members: Seq<Member>) -> bool {
        &&& self is Substring
        &&& 2 <= members.len() <= 3
        &&& members[0].1 matches Some(text)
        &&& members[1].0 matches Some(start)
        &&& members.len() == 3 ==> members[2].0 is Some
        &&& splits_character(
            text@,
            start,
            if members.len() == 3 {
                members[2].0
            } else {
                None
            },
        )
    }

    /// Takes over a call on which the built-in function may abort. Gives the value where the call
    /// overflows, and the error where it always aborts. `Err(None)` leaves the call to the built-in
    /// function.
    pub fn call(&self, whole: Option<i64>, members: Vec<Member>) -> (r: Result<i64, Option<String>>)
        ensures
            match r {
                Ok(value) => self.wrapped(whole, members@) == Some(value),
                Err(Some(why)) => self.aborts(members@) && why@
                    == "a position is in the middle of a character"@,
                Err(None) => self.wrapped(whole, members@) is None && !self.aborts(members@),
            },
    {
        match self {
            PartialFunction::ShiftLeft => {
                if members.len() == 2 {
                    if let (Some(a), Some(n)) = (members[0].0, members[1].0) {
                        if n < 0 || n >= 64 {
                            assert(0 <= n & 63 < 64) by (bit_vector);
                            return Ok(a << (n & 63));
                        }
                    }
                }
                Err(None)
            },
            PartialFunction::ShiftRight => {
                if members.len() == 2 {
                    if let (Some(a), Some(n)) = (members[0].0, members[1].0) {
                        if n < 0 || n >= 64 {
                            assert(0 <= n & 63 < 64) by (bit_vector);
                            return Ok(a >> (n & 63));
                        }
                    }
                }
                Err(None)
            },
            PartialFunction::Abs => match whole {
                Some(n) => {
                    if n == i64::MIN {
                        Ok(n)
                    } else {
                        Err(None)
                    }
                },
                None => Err(None),
            },
            PartialFunction::Substring => {
                let splits = if members.len() == 2 {
                    match (&members[0].1, members[1].0) {
                        (Some(text), Some(start)) => is_splitting(text.as_str(), start, None),
                        _ => false,
                    }
                } else if members.len() == 3 {
                    match (&members[0].1, members[1].0, members[2].0) {
                        (Some(text), Some(start), Some(end)) => {
                            is_splitting(text.as_str(), start, Some(end))
                        },
                        _ => false,
                    }
                } else {
                    false
                };
                if splits {
                    Err(Some("a position is in the middle of a character".to_owned()))
                } else {
                    Err(None)
                }
            },
        }
    }
}

/// The functions that come before the built-in ones of the same name.
pub open spec fn partial_functions() -> Seq<(Seq<char>, PartialFunction)> {
    seq![
        ("shl"@, PartialFunction::ShiftLeft),
        ("shr"@, PartialFunction::ShiftRight),
        ("math::abs"@, PartialFunction::Abs),
        ("str::substring"@, PartialFunction::Substring),
    ]
}

/// A list of functions, with their names as sequences of characters.
pub open spec fn functions_view(functions: Seq<(String, PartialFunction)>) -> Seq<
    (Seq<char>, PartialFunction),
> {
    functions.map_values(|f: (String, PartialFunction)| (f.0@, f.1))
}

/// Lists the functions that come before the built-in ones of the same name.
pub fn list_partial_functions() -> (functions: Vec<(String, PartialFunction)>)
    ensures
        functions_view(functions@) == partial_functions(),
{
    let mut functions: Vec<(String, PartialFunction)> = Vec::new();
    functions.push(("shl".to_owned(), PartialFunction::ShiftLeft));
    functions.push(("shr".to_owned(), PartialFunction::ShiftRight));
    functions.push(("math::abs".to_owned(), PartialFunction::Abs));
    functions.push(("str::substring".to_owned(), PartialFunction::Substring));
    assert(functions_view(functions@) =~= partial_functions());
    functions
}

/// Evaluates an expression with [`evalexpr::eval_int_with_context_mut`], with the built-in functions
/// and no variables. A function that is set in the context comes before the built-in one, which takes
/// over where the former says that there is no such function: so [`PartialFunction::call`] gives what
/// calls give on which the built-in functions may abort, and the built-in functions do the rest. The
/// result depends on the text alone, unless operations take part in it whose result is not fully
/// specified. What the value is, and what the error says, is not stated further. Evaluation is
/// recursive: that the stack suffices for the nesting of the text is taken for granted.
#[verifier::external_body]
pub fn eval_int(s: &str, functions: Vec<(String, PartialFunction)>) -> (r: Result<i64, String>)
    requires
        functions_view(functions@) == partial_functions(),
    ensures
        reproducible(s@) ==> evaluation_view(r) == eval_int_result(s@),
{
    let mut context = HashMapContext::<DefaultNumericTypes>::new();
    for (name, f) in functions {
        let function = Function::new(move |a: &Value| {
            let members = a.as_tuple().unwrap_or_default();
            let plain = members.iter().map(|v| (v.as_int().ok(), v.as_string().ok())).collect();
            let result = f.call(a.as_int().ok(), plain).map(Value::Int);
            let not_found = FunctionIdentifierNotFound(String::new());
            result.map_err(|why| why.map_or(not_found, CustomMessage))
        });
        context.set_function(name, function).ok();
    }
    eval_int_with_context_mut(s, &mut context).map_err(|e| e.to_string())
}

/// Whether `r` can be the result of evaluating `s`.
pub open spec fn evaluates_to(s: Seq<char>, r: Result<i64, String>) -> bool {
    &&& exists|text: &str, functions: Vec<(String, PartialFunction)>|
        {
            &&& text@ == s
            &&& functions_view(functions@) == partial_functions()
            &&& #[trigger] call_ensures(eval_int, (text, functions), r)
        }
    &&& reproducible(s) ==> evaluation_view(r) == eval_int_result(s)
}

/// Evaluates an expression.
pub fn evaluate(s: &str) -> (r: Result<i64, String>)
    ensures
        evaluates_to(s@, r),
{
    let functions = list_partial_functions();
    eval_int(s, functions)
}

/// A shift by a number of bits that an integer does not have is the shift by the number of bits
/// between zero and sixty-three that differs from it by a multiple of sixty-four.
pub proof fn law_overlong_shifts_wrap(a: i64, n: i64, k: i64, members: Seq<Member>)
    requires
        members.len() == 2,
        members[0].0 == Some(a),
        members[1].0 == Some(n),
        !(0 <= n < 64),
        0 <= k < 64,
        (n - k) % 64 == 0,
    ensures
        PartialFunction::ShiftLeft.wrapped(None, members) == Some(a << k),
        PartialFunction::ShiftRight.wrapped(None, members) == Some(a >> k),
{
    let masked = n & 63;
    assert(0 <= masked < 64 && (n - masked) % 64 == 0) by (bit_vector)
        requires
            masked == n & 63,
    ;
    assert(masked == k);
}

/// Only calls that overflow, or that would split a character, are taken over; the built-in functions
/// do all others.
pub proof fn law_defined_calls_are_left_alone(
    f: PartialFunction,
    whole: Option<i64>,
    members: Seq<Member>,
)
    ensures
        f.wrapped(whole, members) is Some ==> {
            ||| (f is ShiftLeft || f is ShiftRight) && members.len() == 2 && members[0].0 is Some
                && (members[1].0 matches Some(n) && (n < 0 || n >= 64))
            ||| f is Abs && whole == Some(i64::MIN)
        },
        f is Abs && whole == Some(i64::MIN) ==> f.wrapped(whole, members) == Some(i64::MIN),
        f.aborts(members) ==> f is Substring && members[0].1 is Some && members[1].0 is Some,
{
}

/// A part of a text splits a character exactly where it lies within the bytes of the text and one of
/// its ends is no boundary between characters.
pub proof fn law_split_is_inside_a_character(text: Seq<char>, start: i64, end: i64)
    ensures
        splits_character(text, start, Some(end)) <==> {
            &&& 0 <= start <= end <= encode_utf8(text).len()
            &&& !(is_char_boundary(encode_utf8(text), start as int) && is_char_boundary(
                encode_utf8(text),
                end as int,
            ))
        },
        splits_character(text, start, None) <==> {
            &&& 0 <= start <= encode_utf8(text).len()
            &&& !is_char_boundary(encode_utf8(text), start as int)
        },
{
    vstd::utf8::encode_utf8_valid_utf8(text);
    vstd::utf8::is_char_boundary_start_end_of_seq(encode_utf8(text));
}

/// The functions that come before the built-in ones are `shl`, `shr`, `math::abs` and
/// `str::substring`, each under its own name, and no others.
pub proof fn law_partial_functions_have_their_names(i: int)
    requires
        0 <= i < partial_functions().len(),
    ensures
        partial_functions().len() == 4,
        partial_functions()[i].1 is ShiftLeft <==> i == 0,
        partial_functions()[i].1 is ShiftRight <==> i == 1,
        partial_functions()[i].1 is Abs <==> i == 2,
        partial_functions()[i].1 is Substring <==> i == 3,
        partial_functions()[i].1 is ShiftLeft ==> partial_functions()[i].0 == "shl"@,
        partial_functions()[i].1 is ShiftRight ==> partial_functions()[i].0 == "shr"@,
        partial_functions()[i].1 is Abs ==> partial_functions()[i].0 == "math::abs"@,
        partial_functions()[i].1 is Substring ==> partial_functions()[i].0 == "str::substring"@,
{
}

} // verus!
