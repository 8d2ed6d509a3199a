//! Reading the OAuth redirect that the identity provider sends to the local
//! callback listener: the authorization `code` and `state` parameters of the
//! HTTP request line's query.

use vstd::prelude::*;
use vstd::utf8::encode_utf8;

use crate::text::{chars_of, push_char, str_eq};

verus! {

/// The whitespace-separated words of `s`, as `str::split_whitespace` gives
/// them.
pub uninterp spec fn whitespace_tokens_spec(s: Seq<char>) -> Seq<Seq<char>>;

/// The name/value pairs of an `application/x-www-form-urlencoded` byte
/// string, decoded, as `form_urlencoded::parse` gives them.
pub uninterp spec fn form_pairs_spec(bytes: Seq<u8>) -> Seq<(Seq<char>, Seq<char>)>;

/// Calls `str::split_whitespace` and collects the words; the result is named
/// `whitespace_tokens_spec`.
#[verifier::external_body]
pub(crate) fn whitespace_tokens(s: &str) -> (r: Vec<String>)
    ensures
        r@.len() == whitespace_tokens_spec(s@).len(),
        forall|i: int| 0 <= i < r@.len() ==> #[trigger] r@[i]@ == whitespace_tokens_spec(s@)[i],
{
    s.split_whitespace().map(|w| w.to_string()).collect()
}

/// Calls `form_urlencoded::parse` and collects the pairs; the result is
/// named `form_pairs_spec`.
#[verifier::external_body]
pub(crate) fn form_pairs(bytes: &[u8]) -> (r: Vec<(String, String)>)
    ensures
        r@.len() == form_pairs_spec(bytes@).len(),
        forall|i: int| 0 <= i < r@.len() ==> (#[trigger] r@[i]).0@ == form_pairs_spec(bytes@)[i].0
            && r@[i].1@ == form_pairs_spec(bytes@)[i].1,
{
    url::form_urlencoded::parse(bytes).map(|(k, v)| (k.to_string(), v.to_string())).collect()
}

/// The value of the last pair named `name`, if any.
pub open spec fn last_value(pairs: Seq<(Seq<char>, Seq<char>)>, name: Seq<char>) -> Option<Seq<char>>
    decreases pairs.len(),
{
    if pairs.len() == 0 {
        None
    } else if pairs.last().0 == name {
        Some(pairs.last().1)
    } else {
        last_value(pairs.drop_last(), name)
    }
}

/// The `code` and `state` query parameters of a request line such as
/// `GET /callback?code=abc&state=xyz HTTP/1.1`: the query is what follows
/// the first `?` of the second word; a parameter given twice counts by its
/// last value.
pub open spec fn callback_params_spec(line: Seq<char>) -> (Option<Seq<char>>, Option<Seq<char>>) {
    let parts = whitespace_tokens_spec(line);
    if parts.len() >= 2 {
        match parts[1].index_of_first('?') {
            Some(q) => {
                let pairs = form_pairs_spec(encode_utf8(parts[1].skip(q + 1)));
                (last_value(pairs, "code"@), last_value(pairs, "state"@))
            },
            None => (None, None),
        }
    } else {
        (None, None)
    }
}

/// The view of an optional string.
pub open spec fn opt_string_view(s: Option<String>) -> Option<Seq<char>> {
    match s {
        Some(x) => Some(x@),
        None => None,
    }
}

/// The characters of `s` after its first `?`, if it has one.
fn after_question_mark(s: &str) -> (r: Option<String>)
    ensures
        match s@.index_of_first('?') {
            Some(q) => r matches Some(t) && t@ == s@.skip(q + 1),
            None => r is None,
        },
{
    proof {
        s@.index_of_first_ensures('?');
    }
    let cs = chars_of(s);
    let n = cs.len();
    let mut i: usize = 0;
    while i < n
        invariant
            cs@ == s@,
            n == cs@.len(),
            i <= n,
            forall|j: int| 0 <= j < i ==> cs@[j] != '?',
        decreases n - i,
    {
        if cs[i] == '?' {
            proof {
                s@.index_of_first_ensures('?');
                assert(s@[i as int] == '?');
                assert(s@.contains('?'));
                let q = s@.index_of_first('?')->0;
                if q < i {
                    assert(cs@[q] != '?');
                } else if q > i {
                    assert(s@[i as int] != '?');
                }
            }
            let mut out = String::new();
            let mut j: usize = i + 1;
            while j < n
                invariant
                    cs@ == s@,
                    n == cs@.len(),
                    i < j <= n,
                    out@ == s@.subrange(i + 1, j as int),
                decreases n - j,
            {
                push_char(&mut out, cs[j]);
                assert(s@.subrange(i + 1, j + 1) =~= s@.subrange(i + 1, j as int).push(s@[j as int]));
                j = j + 1;
            }
            assert(out@ =~= s@.skip(i + 1));
            return Some(out);
        }
        i = i + 1;
    }
    proof {
        s@.index_of_first_ensures('?');
        assert(!s@.contains('?'));
    }
    None
}

/// The value `last_value` gives for `name` is the value of a pair named
/// `name` that no later pair of that name follows; none when no pair has
/// that name.
proof fn lemma_last_value_is_last_pair(pairs: Seq<(Seq<char>, Seq<char>)>, name: Seq<char>)
    ensures
        last_value(pairs, name) is None <==> forall|i: int| 0 <= i < pairs.len() ==> #[trigger] pairs[i].0 != name,
        last_value(pairs, name) matches Some(v) ==> exists|i: int|
            #![trigger pairs[i]]
            0 <= i < pairs.len() && pairs[i] == (name, v)
                && forall|j: int| i < j < pairs.len() ==> #[trigger] pairs[j].0 != name,
    decreases pairs.len(),
{
    if pairs.len() > 0 {
        let rest = pairs.drop_last();
        lemma_last_value_is_last_pair(rest, name);
        let n = pairs.len() - 1;
        if pairs.last().0 == name {
            assert(pairs[n] == (name, pairs.last().1));
        } else {
            assert forall|i: int| 0 <= i < rest.len() implies #[trigger] rest[i] == pairs[i] by {}
            if let Some(v) = last_value(rest, name) {
                let i = choose|i: int|
                    #![trigger rest[i]]
                    0 <= i < rest.len() && rest[i] == (name, v)
                        && forall|j: int| i < j < rest.len() ==> #[trigger] rest[j].0 != name;
                assert(pairs[i] == (name, v));
                assert forall|j: int| i < j < pairs.len() implies #[trigger] pairs[j].0 != name by {
                    if j < n {
                        assert(rest[j] == pairs[j]);
                    }
                }
            } else {
                assert forall|i: int| 0 <= i < pairs.len() implies #[trigger] pairs[i].0 != name by {
                    if i < n {
                        assert(rest[i] == pairs[i]);
                    }
                }
            }
        }
    }
}

/// The query pairs of a request line: those of what follows the first `?`
/// of its second word, if it has one.
pub open spec fn request_query_pairs(line: Seq<char>) -> Option<Seq<(Seq<char>, Seq<char>)>> {
    let parts = whitespace_tokens_spec(line);
    if parts.len() >= 2 {
        match parts[1].index_of_first('?') {
            Some(q) => Some(form_pairs_spec(encode_utf8(parts[1].skip(q + 1)))),
            None => None,
        }
    } else {
        None
    }
}

/// Every pair of the query is read, wherever it stands: the code is the
/// value of a pair named `code` after which no pair of that name comes, and
/// there is none exactly when no pair is named `code`; the same holds of the
/// state. A line without a query gives neither.
pub proof fn lemma_callback_reads_every_pair(line: Seq<char>)
    ensures
        request_query_pairs(line) is None ==> callback_params_spec(line) == (None::<Seq<char>>, None::<Seq<char>>),
        request_query_pairs(line) matches Some(pairs) ==> {
            &&& callback_params_spec(line).0 is None <==> forall|i: int|
                0 <= i < pairs.len() ==> #[trigger] pairs[i].0 != "code"@
            &&& callback_params_spec(line).0 matches Some(v) ==> exists|i: int|
                #![trigger pairs[i]]
                0 <= i < pairs.len() && pairs[i] == ("code"@, v)
                    && forall|j: int| i < j < pairs.len() ==> #[trigger] pairs[j].0 != "code"@
            &&& callback_params_spec(line).1 is None <==> forall|i: int|
                0 <= i < pairs.len() ==> #[trigger] pairs[i].0 != "state"@
            &&& callback_params_spec(line).1 matches Some(v) ==> exists|i: int|
                #![trigger pairs[i]]
                0 <= i < pairs.len() && pairs[i] == ("state"@, v)
                    && forall|j: int| i < j < pairs.len() ==> #[trigger] pairs[j].0 != "state"@
        },
{
    if let Some(pairs) = request_query_pairs(line) {
        lemma_last_value_is_last_pair(pairs, "code"@);
        lemma_last_value_is_last_pair(pairs, "state"@);
    }
}

/// Reads the `code` and `state` parameters from the request line of the OAuth
/// redirect.
pub fn parse_callback_request(request_line: &str) -> (r: (Option<String>, Option<String>))
    ensures
        (opt_string_view(r.0), opt_string_view(r.1)) == callback_params_spec(request_line@),
{
    let parts = whitespace_tokens(request_line);
    if parts.len() < 2 {
        return (None, None);
    }
    let query = match after_question_mark(parts[1].as_str()) {
        Some(q) => q,
        None => return (None, None),
    };
    let pairs = form_pairs(query.as_str().as_bytes());
    let mut code: Option<String> = None;
    let mut state: Option<String> = None;
    let ghost all = form_pairs_spec(encode_utf8(query@));
    let n = pairs.len();
    let mut i: usize = 0;
    while i < n
        invariant
            n == pairs@.len(),
            n == all.len(),
            i <= n,
            forall|k: int| 0 <= k < n ==> (#[trigger] pairs@[k]).0@ == all[k].0 && pairs@[k].1@ == all[k].1,
            opt_string_view(code) == last_value(all.take(i as int), "code"@),
            opt_string_view(state) == last_value(all.take(i as int), "state"@),
        decreases n - i,
    {
        proof {
            assert(all.take(i + 1).drop_last() =~= all.take(i as int));
            reveal_strlit("code");
            reveal_strlit("state");
        }
        let (k, v) = &pairs[i];
        if str_eq(k.as_str(), "code") {
            code = Some(v.clone());
        } else if str_eq(k.as_str(), "state") {
            state = Some(v.clone());
        }
        i = i + 1;
    }
    proof {
        assert(all.take(n as int) =~= all);
    }
    (code, state)
}

/// Why the identity provider's redirect was not accepted.
#[derive(Debug, PartialEq, Eq)]
pub enum CallbackError {
    /// The redirect carries no authorization code.
    MissingCode,
    /// The redirect carries no `state`.
    MissingState,
    /// The redirect's `state` is not the one this login sent: the redirect
    /// may have been forged.
    StateMismatch,
}

impl CallbackError {
    /// The text that reports this refusal.
    pub fn describe(&self) -> (r: String)
        ensures
            match self {
                CallbackError::MissingCode => r@ == "Missing authorization code"@,
                CallbackError::MissingState => r@ == "Missing state"@,
                CallbackError::StateMismatch => r@ == "State mismatch"@,
            },
    {
        match self {
            CallbackError::MissingCode => "Missing authorization code".to_owned(),
            CallbackError::MissingState => "Missing state".to_owned(),
            CallbackError::StateMismatch => "State mismatch".to_owned(),
        }
    }
}

/// Accepts the parameters of the OAuth redirect: the authorization code is
/// kept only when the redirect also returns the `state` this login sent
/// (`expected_state`, its CSRF token). A missing code is reported first,
/// then a missing state, then a state that differs.
pub fn verify_callback(code: Option<String>, state: Option<String>, expected_state: &str) -> (r: Result<String, CallbackError>)
    ensures
        match (code, state) {
            (None, _) => r == Err::<String, CallbackError>(CallbackError::MissingCode),
            (Some(_), None) => r == Err::<String, CallbackError>(CallbackError::MissingState),
            (Some(c), Some(s)) => if s@ == expected_state@ {
                r matches Ok(x) && x@ == c@
            } else {
                r == Err::<String, CallbackError>(CallbackError::StateMismatch)
            },
        },
{
    let code = match code {
        Some(c) => c,
        None => return Err(CallbackError::MissingCode),
    };
    let state = match state {
        Some(s) => s,
        None => return Err(CallbackError::MissingState),
    };
    if str_eq(state.as_str(), expected_state) {
        Ok(code)
    } else {
        Err(CallbackError::StateMismatch)
    }
}

} // verus!
