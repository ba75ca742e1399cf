use crate::cookies::{extract_user, user_cookie, Cookie};
use crate::counter::{wrap_inc, Counter};
use crate::text::{greeting, greeting_body};
use vstd::prelude::*;

verus! {

/// Status code of a successful response.
pub const STATUS_OK: u16 = 200;

/// Status code of a rejected (unauthenticated) response.
pub const STATUS_UNAUTHORIZED: u16 = 401;

/// The fixed body of every rejected response.
pub open spec fn rejection_message() -> Seq<char> {
    "Missing 'User' cookie"@
}

/// Build the fixed rejection body.
pub fn rejection_body() -> (r: String)
    ensures
        r@ == rejection_message(),
{
    String::from_str("Missing 'User' cookie")
}

/// The auth middleware's verdict on one request. The two variants are
/// exhaustive: no third branch of the decision is reachable.
pub enum Decision {
    /// The `User` cookie was present; its value becomes the identity in the
    /// request's context. Any value counts, the empty string included.
    Authorized(String),
    /// No `User` cookie: the request is answered directly, and the
    /// downstream handler never runs.
    Rejected,
}

/// Decide one request from its cookies alone. Reads nothing else and
/// touches no shared state.
pub fn authorize(cookies: &Vec<Cookie>) -> (d: Decision)
    ensures
        (match d {
            Decision::Authorized(v) => user_cookie(cookies@) == Some(v@),
            Decision::Rejected => user_cookie(cookies@) is None,
        }),
{
    match extract_user(cookies) {
        Some(v) => Decision::Authorized(v),
        None => Decision::Rejected,
    }
}

/// One uniform response representation: status code plus plain-text body.
pub struct Response {
    pub status: u16,
    pub body: String,
}

/// The terminal handler. The auth middleware guarantees an identity is
/// present before this runs, so it takes the identity directly and does no
/// re-check.
/// It draws exactly one visitor number from the shared counter and greets
/// the identity with it; there is no other side effect.
pub fn hello(name: &str, counter: &mut Counter) -> (body: String)
    ensures
        body@ == greeting(name@, old(counter)@),
        final(counter)@ == wrap_inc(old(counter)@),
{
    let visitor = counter.increment_and_read();
    greeting_body(name, visitor)
}

/// The whole pipeline for one request: the auth decision, then — only when
/// the `User` cookie is present — the handler.
///
/// With the cookie, the response is `200` and its body greets the cookie's
/// value with the counter value from before this request; the counter
/// advances by one. Without it, the response is `401` with the fixed
/// rejection body, and the counter is left untouched: the handler is never
/// reached, so no downstream side effect occurs.
pub fn handle_request(cookies: &Vec<Cookie>, counter: &mut Counter) -> (resp: Response)
    ensures
        (match user_cookie(cookies@) {
            Some(v) => resp.status == STATUS_OK && resp.body@ == greeting(v, old(counter)@)
                && final(counter)@ == wrap_inc(old(counter)@),
            None => resp.status == STATUS_UNAUTHORIZED && resp.body@ == rejection_message()
                && final(counter)@ == old(counter)@,
        }),
{
    match authorize(cookies) {
        Decision::Authorized(name) => {
            let body = hello(name.as_str(), counter);
            Response { status: STATUS_OK, body }
        },
        Decision::Rejected => Response { status: STATUS_UNAUTHORIZED, body: rejection_body() },
    }
}

/// The counter value handed to the `k`-th authorized request of a run that
/// starts with the counter at `c0`: by [`handle_request`]'s contract each
/// authorized request advances the counter to its wrapping successor, so
/// the `k`-th one reads the `k`-fold successor of `c0`.
pub open spec fn nth_counter(c0: i32, k: nat) -> i32
    decreases k,
{
    if k == 0 {
        c0
    } else {
        wrap_inc(nth_counter(c0, (k - 1) as nat))
    }
}

/// As long as the counter does not wrap, the `k`-th authorized request of a
/// run is visitor number `c0 + k`: sequential repetition hands out
/// consecutive numbers with no gap.
pub proof fn lemma_counter_run_contiguous(c0: i32, k: nat)
    requires
        c0 + k <= i32::MAX,
    ensures
        nth_counter(c0, k) == c0 + k,
    decreases k,
{
    if k > 0 {
        lemma_counter_run_contiguous(c0, (k - 1) as nat);
    }
}

/// The counter after a run of requests, given for each request whether the
/// `User` cookie was present: by [`handle_request`]'s contract an
/// authorized request advances the counter once and a rejected one leaves
/// it exactly as it was.
pub open spec fn run_counter(c0: i32, authed: Seq<bool>) -> i32
    decreases authed.len(),
{
    if authed.len() == 0 {
        c0
    } else if authed[0] {
        run_counter(wrap_inc(c0), authed.drop_first())
    } else {
        run_counter(c0, authed.drop_first())
    }
}

/// How many requests of a run were authorized.
pub open spec fn count_authorized(authed: Seq<bool>) -> nat
    decreases authed.len(),
{
    if authed.len() == 0 {
        0
    } else {
        (if authed[0] {
            1nat
        } else {
            0nat
        }) + count_authorized(authed.drop_first())
    }
}

/// Over any run that does not wrap the counter, the counter advances by
/// exactly the number of authorized requests: the rejected ones, wherever
/// they fall in the run, contribute nothing.
pub proof fn lemma_run_advances_by_authorized(c0: i32, authed: Seq<bool>)
    requires
        c0 + count_authorized(authed) <= i32::MAX,
    ensures
        run_counter(c0, authed) == c0 + count_authorized(authed),
    decreases authed.len(),
{
    if authed.len() > 0 {
        if authed[0] {
            lemma_run_advances_by_authorized((c0 + 1) as i32, authed.drop_first());
        } else {
            lemma_run_advances_by_authorized(c0, authed.drop_first());
        }
    }
}

/// Any two of the first `n` authorized requests of a run get distinct,
/// strictly increasing visitor numbers, provided the counter does not wrap
/// during the run; together the `n` numbers are the contiguous range from
/// `c0` to `c0 + n - 1`.
pub proof fn lemma_visitor_numbers_distinct(c0: i32, n: nat, i: nat, j: nat)
    requires
        i < j < n,
        c0 + n - 1 <= i32::MAX,
    ensures
        nth_counter(c0, i) == c0 + i,
        nth_counter(c0, j) == c0 + j,
        nth_counter(c0, i) < nth_counter(c0, j),
{
    lemma_counter_run_contiguous(c0, i);
    lemma_counter_run_contiguous(c0, j);
}

} // verus!
