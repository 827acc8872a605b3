//! Structured error taxonomy: an error is a numeric code and a message.
//!
//! Codes are composed from a domain base and a subcode as
//! `base * 65536 + sub`, so every kind owns a disjoint range: argument
//! index errors, row type errors, invalid input, internal failures,
//! timeouts, wrapped engine failures, and a dense range with one subcode
//! per SQL-engine error variant. The printed form is the code in decimal,
//! a `#` separator, then the message; parsing a printed error restores
//! the code and message exactly.
use vstd::prelude::*;
use crate::text::{
    chars_vec,
    digit_val,
    spec_digit_val,
    spec_digits,
    spec_digits_value,
    spec_is_digit,
    string_from_chars,
    to_decimal,
    lemma_digits_are_digits,
    lemma_digits_round_trip,
};

verus! {

/// Domain base for argument count or index errors.
pub const BASE_INDEX_PARAM: i32 = 1;

/// Domain base for row values that do not match the declared column type.
pub const BASE_INVALID_TYPE: i32 = 2;

/// Domain base for malformed input: bad URLs, unknown sources, schema failures.
pub const BASE_INVALID: i32 = 3;

/// Domain base for unexpected host or OS failures inside a producer.
pub const BASE_INTERNAL: i32 = 4;

/// Domain base for per-statement timeouts.
pub const BASE_IO_TIMEOUT: i32 = 5;

/// Domain base for the catch-all kind, including wrapped engine failures.
pub const BASE_OTHER: i32 = 6;

/// Domain base of the dense range reserved for SQL-engine error variants.
pub const BASE_ENGINE: i32 = 7;

/// Width of one domain: a code is `base * 65536 + sub`.
pub const CODE_SHIFT: i32 = 65536;

/// The composed code of a domain base and a subcode.
pub open spec fn spec_code(base: int, sub: int) -> int {
    base * 65536 + sub
}

/// Mathematical model of an error: its code and its message.
pub ghost struct ErrorModel {
    pub code: int,
    pub message: Seq<char>,
}

/// A structured error: a numeric code and a message.
#[derive(Debug)]
pub struct Error {
    code: i32,
    message: String,
}

impl View for Error {
    type V = ErrorModel;

    closed spec fn view(&self) -> ErrorModel {
        ErrorModel { code: self.code as int, message: self.message@ }
    }
}

impl PartialEq for Error {
    fn eq(&self, other: &Error) -> (r: bool) {
        self.code == other.code && self.message.eq(&other.message)
    }
}

impl vstd::std_specs::cmp::PartialEqSpecImpl for Error {
    open spec fn obeys_eq_spec() -> bool {
        true
    }

    open spec fn eq_spec(&self, other: &Error) -> bool {
        self@ == other@
    }
}

/// The composed code of a base and a subcode, both in range.
pub fn code_of(base: i32, sub: i32) -> (c: i32)
    requires
        1 <= base <= 7,
        0 <= sub < 65536,
    ensures
        c == spec_code(base as int, sub as int),
{
    base * 65536 + sub
}

impl Error {
    /// Every constructed error has a non-negative code.
    pub open spec fn wf(&self) -> bool {
        0 <= self@.code <= i32::MAX
    }

    /// An error with an explicit code and message.
    pub fn new(code: i32, message: String) -> (e: Error)
        requires
            code >= 0,
        ensures
            e@.code == code as int,
            e@.message == message@,
            e.wf(),
    {
        Error { code, message }
    }

    /// Argument count or index out of range.
    pub fn index_param(message: &str) -> (e: Error)
        ensures
            e@.code == spec_code(BASE_INDEX_PARAM as int, 0),
            e@.message == message@,
            e.wf(),
    {
        Error { code: code_of(BASE_INDEX_PARAM, 0), message: message.to_owned() }
    }

    /// A row value that does not match the declared column type.
    pub fn invalid_type(message: String) -> (e: Error)
        ensures
            e@.code == spec_code(BASE_INVALID_TYPE as int, 0),
            e@.message == message@,
            e.wf(),
    {
        Error { code: code_of(BASE_INVALID_TYPE, 0), message }
    }

    /// Malformed input: a bad URL, an unknown source, a schema failure.
    pub fn invalid(sub: i32, message: String) -> (e: Error)
        requires
            0 <= sub < 65536,
        ensures
            e@.code == spec_code(BASE_INVALID as int, sub as int),
            e@.message == message@,
            e.wf(),
    {
        Error { code: code_of(BASE_INVALID, sub), message }
    }

    /// An unexpected host or OS failure inside a producer.
    pub fn internal(sub: i32, message: String) -> (e: Error)
        requires
            0 <= sub < 65536,
        ensures
            e@.code == spec_code(BASE_INTERNAL as int, sub as int),
            e@.message == message@,
            e.wf(),
    {
        Error { code: code_of(BASE_INTERNAL, sub), message }
    }

    /// A per-statement timeout.
    pub fn io_timeout(message: String) -> (e: Error)
        ensures
            e@.code == spec_code(BASE_IO_TIMEOUT as int, 0),
            e@.message == message@,
            e.wf(),
    {
        Error { code: code_of(BASE_IO_TIMEOUT, 0), message }
    }

    /// The catch-all kind; the subcode is clamped into its 16-bit range.
    pub fn other(sub: i32, message: String) -> (e: Error)
        ensures
            e@.code == spec_code(
                BASE_OTHER as int,
                if 0 <= sub < 65536 {
                    sub as int
                } else {
                    0
                },
            ),
            e@.message == message@,
            e.wf(),
    {
        let s: i32 = if 0 <= sub && sub < 65536 {
            sub
        } else {
            0
        };
        Error { code: code_of(BASE_OTHER, s), message }
    }

    /// One subcode of the dense range reserved per SQL-engine error variant.
    pub fn engine(sub: i32, message: String) -> (e: Error)
        requires
            0 <= sub < 65536,
        ensures
            e@.code == spec_code(BASE_ENGINE as int, sub as int),
            e@.message == message@,
            e.wf(),
    {
        Error { code: code_of(BASE_ENGINE, sub), message }
    }

    /// The numeric code.
    pub fn get_code(&self) -> (c: i32)
        ensures
            c == self@.code,
    {
        self.code
    }

    /// The message.
    pub fn get_message(&self) -> (m: &String)
        ensures
            m@ == self@.message,
    {
        &self.message
    }

    /// An error equal to this one.
    pub fn duplicate(&self) -> (e: Error)
        ensures
            e@ == self@,
    {
        Error { code: self.code, message: self.message.clone() }
    }
}

/// The printed form of an error: decimal code, `#`, then the message.
pub open spec fn spec_error_text(e: ErrorModel) -> Seq<char>
    recommends
        e.code >= 0,
{
    spec_digits(e.code as nat) + seq!['#'] + e.message
}

/// The number of leading decimal-digit characters.
pub open spec fn spec_digit_prefix_len(s: Seq<char>) -> int
    decreases s.len(),
{
    if s.len() == 0 || !spec_is_digit(s[0]) {
        0
    } else {
        1 + spec_digit_prefix_len(s.drop_first())
    }
}

/// The digit prefix is never longer than the text and is all digits.
pub proof fn lemma_digit_prefix_len_bounds(s: Seq<char>)
    ensures
        0 <= spec_digit_prefix_len(s) <= s.len(),
        forall|i: int|
            0 <= i < spec_digit_prefix_len(s) ==> spec_is_digit(#[trigger] s[i]),
    decreases s.len(),
{
    if s.len() > 0 && spec_is_digit(s[0]) {
        lemma_digit_prefix_len_bounds(s.drop_first());
        assert forall|i: int|
            0 <= i < spec_digit_prefix_len(s) implies spec_is_digit(#[trigger] s[i]) by {
            if i > 0 {
                assert(s[i] == s.drop_first()[i - 1]);
            }
        }
    }
}

/// Parsing a printed error: the leading digits are the code, a `#` must
/// follow, and the rest is the message.
pub open spec fn spec_parse(s: Seq<char>) -> Option<ErrorModel> {
    let k = spec_digit_prefix_len(s);
    if 1 <= k && k < s.len() && s[k] == '#' && spec_digits_value(s.take(k)) <= i32::MAX as int {
        Some(ErrorModel { code: spec_digits_value(s.take(k)), message: s.skip(k + 1) })
    } else {
        None
    }
}

/// Appending non-digit-led text does not extend the digit prefix.
proof fn lemma_digit_prefix_concat(s: Seq<char>, t: Seq<char>)
    requires
        forall|i: int| 0 <= i < s.len() ==> spec_is_digit(#[trigger] s[i]),
        t.len() > 0,
        !spec_is_digit(t[0]),
    ensures
        spec_digit_prefix_len(s + t) == s.len(),
    decreases s.len(),
{
    if s.len() == 0 {
        assert(s + t =~= t);
    } else {
        assert((s + t)[0] == s[0]);
        assert((s + t).drop_first() =~= s.drop_first() + t);
        lemma_digit_prefix_concat(s.drop_first(), t);
    }
}

/// The value of a digit sequence is non-negative.
proof fn lemma_digits_value_nonneg(s: Seq<char>)
    requires
        forall|i: int| 0 <= i < s.len() ==> spec_is_digit(#[trigger] s[i]),
    ensures
        spec_digits_value(s) >= 0,
    decreases s.len(),
{
    if s.len() > 0 {
        lemma_digits_value_nonneg(s.drop_last());
    }
}

/// Parsing a printed error restores its code and message exactly.
pub proof fn lemma_error_text_round_trip(e: ErrorModel)
    requires
        0 <= e.code <= i32::MAX,
    ensures
        spec_parse(spec_error_text(e)) == Some(e),
{
    let d = spec_digits(e.code as nat);
    let t = spec_error_text(e);
    lemma_digits_are_digits(e.code as nat);
    lemma_digits_round_trip(e.code as nat);
    assert(t =~= d + (seq!['#'] + e.message));
    assert((seq!['#'] + e.message)[0] == '#');
    assert(!spec_is_digit('#'));
    lemma_digit_prefix_concat(d, seq!['#'] + e.message);
    let k = spec_digit_prefix_len(t);
    assert(k == d.len());
    assert(t[k] == '#');
    assert(t.take(k) =~= d);
    assert(t.skip(k + 1) =~= e.message);
    assert(spec_parse(t) == Some(e));
}

impl Error {
    /// The printed form: decimal code, `#`, then the message.
    pub fn to_text(&self) -> (r: String)
        requires
            self.wf(),
        ensures
            r@ == spec_error_text(self@),
    {
        let digits = to_decimal(self.code as u64);
        let mut r = string_from_chars(&digits);
        r.append("#");
        r.append(self.message.as_str());
        proof {
            reveal_strlit("#");
            assert(r@ =~= spec_error_text(self@));
        }
        r
    }

    /// Parse a printed error back into its code and message. An input
    /// without leading digits and a `#` separator, or whose code does not
    /// fit, yields the invalid kind carrying the whole input.
    pub fn parse(s: &str) -> (r: Result<Error, Error>)
        ensures
            match spec_parse(s@) {
                Some(m) => r matches Ok(e) && e@ == m && e.wf(),
                None => r matches Err(e) && e@.code == spec_code(BASE_INVALID as int, 0)
                    && e@.message == s@,
            },
    {
        let v = chars_vec(s);
        proof {
            lemma_digit_prefix_len_bounds(v@);
        }
        let ghost kk = spec_digit_prefix_len(v@);
        let mut k: usize = 0;
        let mut val: u64 = 0;
        while k < v.len() && is_digit_char(v[k])
            invariant
                0 <= k <= v@.len(),
                k <= kk,
                kk == spec_digit_prefix_len(v@),
                forall|i: int| 0 <= i < k ==> spec_is_digit(#[trigger] v@[i]),
                forall|i: int| 0 <= i < kk ==> spec_is_digit(#[trigger] v@[i]),
                val <= 0x8000_0000u64,
                spec_digits_value(v@.take(k as int)) <= i32::MAX as int ==> val
                    == spec_digits_value(v@.take(k as int)),
                spec_digits_value(v@.take(k as int)) > i32::MAX as int ==> val > i32::MAX as u64,
            decreases v@.len() - k,
        {
            let ghost old_k = k as int;
            let ghost old_val = val;
            proof {
                lemma_digits_value_nonneg(v@.take(old_k));
                assert(v@.take(old_k + 1).drop_last() =~= v@.take(old_k));
                assert(v@.take(old_k + 1).last() == v@[old_k]);
                if old_k == kk {
                    // the scanned character is a digit, so the prefix extends
                    lemma_digit_prefix_extends(v@, old_k);
                }
            }
            let d = digit_val(v[k]);
            if val <= 0x7FFF_FFFFu64 {
                val = val * 10 + (d as u64);
                if val > 0x8000_0000u64 {
                    val = 0x8000_0000u64;
                }
            }
            k = k + 1;
            proof {
                let cur = spec_digits_value(v@.take(k as int));
                assert(cur == spec_digits_value(v@.take(old_k)) * 10 + spec_digit_val(
                    v@[old_k],
                ));
                if old_val > i32::MAX as u64 {
                    assert(cur > i32::MAX as int);
                }
            }
        }
        proof {
            if k < v@.len() {
                assert(!spec_is_digit(v@[k as int]) ==> kk <= k);
            } else {
                assert(kk <= v@.len());
            }
            assert(k == kk) by {
                if k < kk {
                    assert(spec_is_digit(v@[k as int]));
                }
            }
        }
        if k >= 1 && k < v.len() && v[k] == '#' && val <= 0x7FFF_FFFFu64 {
            let mut msg: Vec<char> = Vec::new();
            let mut i: usize = k + 1;
            while i < v.len()
                invariant
                    k + 1 <= i <= v@.len(),
                    msg@ =~= v@.subrange(k + 1, i as int),
                decreases v@.len() - i,
            {
                msg.push(v[i]);
                i = i + 1;
                proof {
                    assert(msg@ =~= v@.subrange(k + 1, i as int));
                }
            }
            let message = string_from_chars(&msg);
            proof {
                assert(msg@ =~= v@.skip(k + 1));
            }
            Ok(Error { code: val as i32, message })
        } else {
            Err(Error::invalid(0, s.to_owned()))
        }
    }
}

/// Whether a character is a decimal digit.
fn is_digit_char(c: char) -> (r: bool)
    ensures
        r == spec_is_digit(c),
{
    c == '0' || c == '1' || c == '2' || c == '3' || c == '4' || c == '5' || c == '6' || c == '7'
        || c == '8' || c == '9'
}

/// If the character at the end of the scanned digit prefix is itself a
/// digit, the digit prefix is longer.
proof fn lemma_digit_prefix_extends(s: Seq<char>, k: int)
    requires
        0 <= k < s.len(),
        forall|i: int| 0 <= i < k ==> spec_is_digit(#[trigger] s[i]),
        spec_is_digit(s[k]),
    ensures
        spec_digit_prefix_len(s) > k,
    decreases k,
{
    if k > 0 {
        assert(s.drop_first()[k - 1] == s[k]);
        assert forall|i: int| 0 <= i < k - 1 implies spec_is_digit(#[trigger] s.drop_first()[i]) by {
            assert(s.drop_first()[i] == s[i + 1]);
        }
        lemma_digit_prefix_extends(s.drop_first(), k - 1);
    } else {
        assert(spec_is_digit(s[0]));
        lemma_digit_prefix_len_bounds(s.drop_first());
        assert(spec_digit_prefix_len(s) == 1 + spec_digit_prefix_len(s.drop_first()));
    }
}

} // verus!
