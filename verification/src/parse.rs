use vstd::arithmetic::div_mod::{lemma_fundamental_div_mod, lemma_mod_bound};
use vstd::prelude::*;

verus! {

/// Why an input failed to parse as a number, mirroring the error kinds of
/// integer parsing in the standard library.
#[derive(Clone, Copy, Debug, PartialEq, Eq, Structural)]
pub enum ParseError {
    /// The input was empty.
    Empty,
    /// A character other than a decimal digit stood where a digit was
    /// needed (a lone sign included).
    InvalidDigit,
    /// The digits name a value above `usize::MAX`.
    PosOverflow,
}

/// `c` is a decimal digit.
pub open spec fn is_digit(c: char) -> bool {
    48 <= c as u32 <= 57
}

/// The numeric value of the digit `c`.
pub open spec fn digit_val(c: char) -> nat {
    (c as u32 - 48) as nat
}

/// Every character of `s` is a decimal digit.
pub open spec fn all_digits(s: Seq<char>) -> bool {
    forall|i: int| 0 <= i < s.len() ==> is_digit(#[trigger] s[i])
}

/// The value named by a digit sequence, most significant digit first.
pub open spec fn digits_val(s: Seq<char>) -> nat
    decreases s.len(),
{
    if s.len() == 0 {
        0
    } else {
        digits_val(s.drop_last()) * 10 + digit_val(s.last())
    }
}

/// The input without its optional leading plus sign.
pub open spec fn number_body(s: Seq<char>) -> Seq<char> {
    if s.len() > 0 && s[0] == '+' {
        s.drop_first()
    } else {
        s
    }
}

/// Some all-digit prefix of `body` already names a value above
/// `usize::MAX`: a left-to-right scan hits overflow before it can reach
/// anything else that is wrong with the input.
pub open spec fn overflows(body: Seq<char>) -> bool {
    exists|p: int|
        0 <= p <= body.len() && all_digits(#[trigger] body.take(p)) && digits_val(body.take(p))
            > usize::MAX
}

/// `s` parses cleanly as a `usize`: at least one digit after the optional
/// sign, digits throughout, and a value that fits.
pub open spec fn parse_ok(s: Seq<char>) -> bool {
    number_body(s).len() > 0 && all_digits(number_body(s)) && digits_val(number_body(s))
        <= usize::MAX
}

/// A longer all-digit prefix never names a smaller value.
proof fn lemma_digits_val_mono(s: Seq<char>, k1: int, k2: int)
    requires
        0 <= k1 <= k2 <= s.len(),
    ensures
        digits_val(s.take(k1)) <= digits_val(s.take(k2)),
    decreases k2 - k1,
{
    if k1 < k2 {
        lemma_digits_val_mono(s, k1, k2 - 1);
        assert(s.take(k2).drop_last() =~= s.take(k2 - 1));
    }
}

/// A clean parse is exactly a scan that neither overflows nor stops at a
/// non-digit: the three ways to fail and the one way to succeed cover
/// every input exactly once.
pub proof fn lemma_parse_ok_characterization(s: Seq<char>)
    ensures
        parse_ok(s) <==> (s.len() > 0 && !overflows(number_body(s)) && number_body(s).len() > 0
            && all_digits(number_body(s))),
{
    let body = number_body(s);
    assert(body.take(body.len() as int) =~= body);
    if parse_ok(s) {
        assert forall|p: int|
            0 <= p <= body.len() && all_digits(#[trigger] body.take(p)) implies digits_val(
            body.take(p),
        ) <= usize::MAX by {
            lemma_digits_val_mono(body, p, body.len() as int);
        }
    }
}

/// Parse a `usize` from decimal text: an optional leading `+`, then
/// digits. Returns the value exactly when the input is a well-formed
/// number that fits; otherwise says which of the three things went wrong,
/// judging overflow before a later bad character, as a left-to-right scan
/// does.
pub fn try_parse_usize(input: &str) -> (r: Result<usize, ParseError>)
    ensures
        input@.len() == 0 <==> r == Err::<usize, ParseError>(ParseError::Empty),
        input@.len() > 0 && overflows(number_body(input@)) ==> r == Err::<usize, ParseError>(
            ParseError::PosOverflow,
        ),
        input@.len() > 0 && !overflows(number_body(input@)) && !(number_body(input@).len() > 0
            && all_digits(number_body(input@))) ==> r == Err::<usize, ParseError>(
            ParseError::InvalidDigit,
        ),
        parse_ok(input@) ==> (r matches Ok(n) && n == digits_val(number_body(input@))),
{
    let ghost bs = number_body(input@);
    let len: usize = input.unicode_len();
    if len == 0 {
        return Err(ParseError::Empty);
    }
    let first: char = input.get_char(0);
    let start: usize = if first == '+' {
        1
    } else {
        0
    };
    proof {
        if start == 1 {
            assert(bs =~= input@.drop_first());
        } else {
            assert(bs =~= input@);
        }
        assert(bs.len() == len - start);
        assert(forall|j: int| 0 <= j < bs.len() ==> bs[j] == input@[j + start]);
    }
    if len == start {
        proof {
            assert(bs.len() == 0);
            assert forall|p: int|
                0 <= p <= bs.len() && all_digits(#[trigger] bs.take(p)) implies digits_val(
                bs.take(p),
            ) <= usize::MAX by {
                assert(bs.take(p) =~= bs);
            }
        }
        return Err(ParseError::InvalidDigit);
    }
    let mut acc: usize = 0;
    let mut i: usize = start;
    proof {
        assert(bs.take(0) =~= Seq::<char>::empty());
    }
    while i < len
        invariant
            start <= i <= len,
            len == input@.len(),
            bs == number_body(input@),
            bs.len() == len - start,
            forall|j: int| 0 <= j < bs.len() ==> bs[j] == input@[j + start],
            all_digits(bs.take(i - start)),
            acc == digits_val(bs.take(i - start)),
        decreases len - i,
    {
        let c: char = input.get_char(i);
        let u: u32 = c as u32;
        proof {
            assert(bs[i - start] == c);
        }
        if u < 48 || u > 57 {
            proof {
                assert(!is_digit(bs[i - start]));
                assert forall|p: int|
                    0 <= p <= bs.len() && all_digits(#[trigger] bs.take(p)) implies digits_val(
                    bs.take(p),
                ) <= usize::MAX by {
                    if p > i - start {
                        assert(bs.take(p)[i - start] == bs[i - start]);
                    } else {
                        lemma_digits_val_mono(bs, p, i - start);
                    }
                }
            }
            return Err(ParseError::InvalidDigit);
        }
        let d: usize = (u - 48) as usize;
        proof {
            assert(is_digit(bs[i - start]));
            assert(d == digit_val(bs[i - start]));
            assert(bs.take(i - start + 1).drop_last() =~= bs.take(i - start));
            assert(bs.take(i - start + 1).last() == bs[i - start]);
            lemma_fundamental_div_mod(usize::MAX - d, 10);
            lemma_mod_bound(usize::MAX - d, 10);
        }
        if acc > (usize::MAX - d) / 10 {
            proof {
                assert(acc * 10 + d > usize::MAX);
                assert(digits_val(bs.take(i - start + 1)) > usize::MAX);
                assert(all_digits(bs.take(i - start + 1)));
                assert(overflows(bs));
                lemma_parse_ok_characterization(input@);
            }
            return Err(ParseError::PosOverflow);
        }
        proof {
            assert(acc * 10 + d <= usize::MAX);
        }
        acc = acc * 10 + d;
        i = i + 1;
    }
    proof {
        assert(bs.take(bs.len() as int) =~= bs);
        lemma_parse_ok_characterization(input@);
    }
    Ok(acc)
}

/// The argument that follows the first occurrence of `flag` in an argument
/// list, when there is one.
pub open spec fn flag_arg(args: Seq<String>, flag: Seq<char>) -> Option<Seq<char>>
    decreases args.len(),
{
    if args.len() == 0 {
        None
    } else if args[0]@ == flag {
        if args.len() >= 2 {
            Some(args[1]@)
        } else {
            None
        }
    } else {
        flag_arg(args.drop_first(), flag)
    }
}

fn env_or_default(env_val: &Option<String>, default: usize) -> (r: usize)
    ensures
        (if env_val is Some && parse_ok(env_val->Some_0@) {
            r == digits_val(number_body(env_val->Some_0@))
        } else {
            r == default
        }),
{
    match env_val {
        Some(e) => {
            proof {
                lemma_parse_ok_characterization(e@);
            }
            match try_parse_usize(e.as_str()) {
                Ok(v) => v,
                Err(_) => default,
            }
        },
        None => default,
    }
}

/// Resolve a numeric option: the value right after the first occurrence of
/// `flag` among the arguments when it parses, else the environment's value
/// for it when that parses, else the default. Only the first occurrence of
/// the flag is consulted, as a scan for its position would find it.
pub fn parse_arg(args: &Vec<String>, flag: &str, env_val: &Option<String>, default: usize) -> (r:
    usize)
    ensures
        ({
            let cli = flag_arg(args@, flag@);
            if cli is Some && parse_ok(cli->Some_0) {
                r == digits_val(number_body(cli->Some_0))
            } else if env_val is Some && parse_ok(env_val->Some_0@) {
                r == digits_val(number_body(env_val->Some_0@))
            } else {
                r == default
            }
        }),
{
    let n: usize = args.len();
    assert(args@.skip(0) =~= args@);
    for i in 0..n
        invariant
            n == args@.len(),
            flag_arg(args@, flag@) == flag_arg(args@.skip(i as int), flag@),
    {
        proof {
            assert(args@.skip(i as int)[0] == args@[i as int]);
        }
        if crate::text::str_eq(args[i].as_str(), flag) {
            if i + 1 < n {
                proof {
                    assert(args@.skip(i as int)[1] == args@[i as int + 1]);
                    lemma_parse_ok_characterization(args@[i as int + 1]@);
                }
                match try_parse_usize(args[i + 1].as_str()) {
                    Ok(v) => {
                        return v;
                    },
                    Err(_) => {
                        return env_or_default(env_val, default);
                    },
                }
            } else {
                return env_or_default(env_val, default);
            }
        }
        proof {
            assert(args@.skip(i as int).drop_first() =~= args@.skip(i + 1));
        }
    }
    proof {
        assert(args@.skip(n as int).len() == 0);
    }
    env_or_default(env_val, default)
}

/// The environment variable that backs `flag`: the flags this workload
/// knows fall back to `ITERS` and `SIZE`; any other flag has no backing
/// variable.
pub fn env_key(flag: &str) -> (r: &'static str)
    ensures
        flag@ == "--iters"@ ==> r@ == "ITERS"@,
        flag@ == "--size"@ ==> r@ == "SIZE"@,
        flag@ != "--iters"@ && flag@ != "--size"@ ==> r@.len() == 0,
{
    proof {
        reveal_strlit("--iters");
        reveal_strlit("--size");
    }
    if crate::text::str_eq(flag, "--iters") {
        proof {
            assert("--iters"@.len() == 7);
            assert("--size"@.len() == 6);
            assert(flag@ != "--size"@);
        }
        "ITERS"
    } else if crate::text::str_eq(flag, "--size") {
        "SIZE"
    } else {
        proof {
            reveal_strlit("");
        }
        ""
    }
}

} // verus!
