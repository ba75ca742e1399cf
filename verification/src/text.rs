use vstd::prelude::*;

verus! {

/// The decimal digit character for `d`, which must be below ten.
pub open spec fn digit_char(d: nat) -> char {
    if d == 0 {
        '0'
    } else if d == 1 {
        '1'
    } else if d == 2 {
        '2'
    } else if d == 3 {
        '3'
    } else if d == 4 {
        '4'
    } else if d == 5 {
        '5'
    } else if d == 6 {
        '6'
    } else if d == 7 {
        '7'
    } else if d == 8 {
        '8'
    } else {
        '9'
    }
}

/// The decimal digits of `n`, most significant first, with no sign and no
/// leading zeros (zero itself is the single digit `0`).
pub open spec fn dec_digits(n: nat) -> Seq<char>
    decreases n,
{
    if n < 10 {
        seq![digit_char(n)]
    } else {
        dec_digits(n / 10).push(digit_char(n % 10))
    }
}

/// The decimal rendering of a signed value: a leading `-` before the
/// magnitude's digits when `v` is negative.
pub open spec fn dec_int(v: int) -> Seq<char> {
    if v >= 0 {
        dec_digits(v as nat)
    } else {
        seq!['-'] + dec_digits((-v) as nat)
    }
}

fn digit_str(d: u32) -> (r: &'static str)
    requires
        d < 10,
    ensures
        r@ == seq![digit_char(d as nat)],
{
    if d == 0 {
        proof {
            reveal_strlit("0");
            assert("0"@ =~= seq![digit_char(0)]);
        }
        "0"
    } else if d == 1 {
        proof {
            reveal_strlit("1");
            assert("1"@ =~= seq![digit_char(1)]);
        }
        "1"
    } else if d == 2 {
        proof {
            reveal_strlit("2");
            assert("2"@ =~= seq![digit_char(2)]);
        }
        "2"
    } else if d == 3 {
        proof {
            reveal_strlit("3");
            assert("3"@ =~= seq![digit_char(3)]);
        }
        "3"
    } else if d == 4 {
        proof {
            reveal_strlit("4");
            assert("4"@ =~= seq![digit_char(4)]);
        }
        "4"
    } else if d == 5 {
        proof {
            reveal_strlit("5");
            assert("5"@ =~= seq![digit_char(5)]);
        }
        "5"
    } else if d == 6 {
        proof {
            reveal_strlit("6");
            assert("6"@ =~= seq![digit_char(6)]);
        }
        "6"
    } else if d == 7 {
        proof {
            reveal_strlit("7");
            assert("7"@ =~= seq![digit_char(7)]);
        }
        "7"
    } else if d == 8 {
        proof {
            reveal_strlit("8");
            assert("8"@ =~= seq![digit_char(8)]);
        }
        "8"
    } else {
        proof {
            reveal_strlit("9");
            assert("9"@ =~= seq![digit_char(9)]);
        }
        "9"
    }
}

fn push_digits(out: &mut String, m: u32)
    ensures
        final(out)@ == old(out)@ + dec_digits(m as nat),
    decreases m,
{
    if m >= 10 {
        push_digits(out, m / 10);
        out.append(digit_str(m % 10));
        proof {
            assert(out@ =~= old(out)@ + dec_digits(m as nat));
        }
    } else {
        out.append(digit_str(m));
        proof {
            assert(out@ =~= old(out)@ + dec_digits(m as nat));
        }
    }
}

/// Render an unsigned value in decimal.
pub fn u32_string(m: u32) -> (r: String)
    ensures
        r@ == dec_digits(m as nat),
{
    let mut s = String::new();
    push_digits(&mut s, m);
    proof {
        assert(s@ =~= dec_digits(m as nat));
    }
    s
}

/// Render a signed value in decimal.
pub fn i32_string(v: i32) -> (r: String)
    ensures
        r@ == dec_int(v as int),
{
    if v >= 0 {
        u32_string(v as u32)
    } else {
        let m: u32 = (-(v as i64)) as u32;
        let mut s = String::from_str("-");
        push_digits(&mut s, m);
        proof {
            reveal_strlit("-");
            assert(s@ =~= dec_int(v as int));
        }
        s
    }
}

/// Character-for-character equality of two strings.
pub fn str_eq(a: &str, b: &str) -> (r: bool)
    ensures
        r == (a@ == b@),
{
    let la: usize = a.unicode_len();
    let lb: usize = b.unicode_len();
    if la != lb {
        return false;
    }
    for i in 0..la
        invariant
            la == a@.len(),
            la == b@.len(),
            forall|k: int| 0 <= k < i ==> a@[k] == b@[k],
    {
        if a.get_char(i) != b.get_char(i) {
            return false;
        }
    }
    proof {
        assert(a@ =~= b@);
    }
    true
}

/// The body of a successful response: the greeting that names the identity
/// and the visitor number this request was assigned.
pub open spec fn greeting(name: Seq<char>, visitor: i32) -> Seq<char> {
    "Hello "@ + name + "! You are visitor number "@ + dec_int(visitor as int) + "!"@
}

/// Build the greeting body for `name` and `visitor`.
pub fn greeting_body(name: &str, visitor: i32) -> (r: String)
    ensures
        r@ == greeting(name@, visitor),
{
    let mut s = String::from_str("Hello ");
    s.append(name);
    s.append("! You are visitor number ");
    let num = i32_string(visitor);
    s.append(num.as_str());
    s.append("!");
    proof {
        assert(s@ =~= greeting(name@, visitor));
    }
    s
}

/// The body of the path-parameter route: it names the friend from the path
/// and echoes the numeric user id.
pub open spec fn welcome(friend: Seq<char>, user_id: u32) -> Seq<char> {
    "Welcome "@ + friend + ", user_id "@ + dec_digits(user_id as nat) + "!"@
}

/// Build the welcome body for `friend` and `user_id`.
pub fn welcome_body(friend: &str, user_id: u32) -> (r: String)
    ensures
        r@ == welcome(friend@, user_id),
{
    let mut s = String::from_str("Welcome ");
    s.append(friend);
    s.append(", user_id ");
    let num = u32_string(user_id);
    s.append(num.as_str());
    s.append("!");
    proof {
        assert(s@ =~= welcome(friend@, user_id));
    }
    s
}

/// The identity appears verbatim in the greeting, right after the fixed
/// six-character salutation.
pub proof fn lemma_greeting_contains_name(name: Seq<char>, visitor: i32)
    ensures
        0 <= 6 + name.len() <= greeting(name, visitor).len(),
        greeting(name, visitor).subrange(6, 6 + name.len() as int) == name,
{
    reveal_strlit("Hello ");
    assert(greeting(name, visitor).subrange(6, 6 + name.len() as int) =~= name);
}

} // verus!
