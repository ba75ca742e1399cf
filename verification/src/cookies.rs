use vstd::prelude::*;

verus! {

/// One request cookie: a name/value pair, read-only request metadata.
pub struct Cookie {
    pub name: String,
    pub value: String,
}

/// The name of the cookie that carries the identity.
pub open spec fn user_cookie_name() -> Seq<char> {
    "User"@
}

/// The value of the first cookie named `User` in `cookies`, if any.
/// Any value, the empty string included, counts: no validation or
/// transformation is applied.
pub open spec fn user_cookie(cookies: Seq<Cookie>) -> Option<Seq<char>>
    decreases cookies.len(),
{
    if cookies.len() == 0 {
        None
    } else if cookies[0].name@ == user_cookie_name() {
        Some(cookies[0].value@)
    } else {
        user_cookie(cookies.drop_first())
    }
}

/// Look up the identity cookie: the value of the first cookie named
/// `User`, or `None` when no cookie of that name is present.
pub fn extract_user(cookies: &Vec<Cookie>) -> (r: Option<String>)
    ensures
        match r {
            Some(v) => user_cookie(cookies@) == Some(v@),
            None => user_cookie(cookies@) is None,
        },
{
    let key: String = String::from_str("User");
    let n = cookies.len();
    assert(cookies@.skip(0) =~= cookies@);
    for i in 0..n
        invariant
            n == cookies@.len(),
            key@ == user_cookie_name(),
            user_cookie(cookies@) == user_cookie(cookies@.skip(i as int)),
            forall|k: int| 0 <= k < i ==> cookies@[k].name@ != user_cookie_name(),
    {
        assert(cookies@.skip(i as int)[0] == cookies@[i as int]);
        if cookies[i].name == key {
            return Some(cookies[i].value.clone());
        }
        assert(cookies@.skip(i as int).drop_first() =~= cookies@.skip(i + 1));
    }
    assert(cookies@.skip(n as int).len() == 0);
    None
}

} // verus!
