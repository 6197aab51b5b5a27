use vstd::prelude::*;
use vstd::string::*;

use crate::credentials::{token_of, Credentials};
use crate::keyed::KeyedList;
use crate::text::{
    all_digits, chars_of, decimal, has_at, is_digit, matches_at, no_newline, parse_u64_chars,
    parse_u64, parse_u64_spec, push_char, push_decimal, string_of_range,
};

verus! {

/// How one character of dispatch text is sent: characters beyond ASCII become
/// decimal HTML character references, all others stay as they are.
pub open spec fn encode_char(c: char) -> Seq<char> {
    if (c as u32) > 127 {
        seq!['&', '#'] + decimal((c as u32) as nat) + seq![';']
    } else {
        seq![c]
    }
}

/// The whole text with every character encoded by `encode_char`.
pub open spec fn encode_entities(s: Seq<char>) -> Seq<char>
    decreases s.len(),
{
    if s.len() == 0 {
        Seq::empty()
    } else {
        encode_entities(s.drop_last()) + encode_char(s.last())
    }
}

/// Encoded text is plain ASCII, and text that is plain ASCII already is left
/// as it is.
pub proof fn law_encoding_is_ascii(s: Seq<char>)
    ensures
        forall|i: int| 0 <= i < encode_entities(s).len() ==> (#[trigger] encode_entities(s)[i]) as u32 <= 127,
        (forall|i: int| 0 <= i < s.len() ==> (#[trigger] s[i]) as u32 <= 127) ==> encode_entities(s) == s,
    decreases s.len(),
{
    if s.len() > 0 {
        law_encoding_is_ascii(s.drop_last());
        let c = s.last();
        let rest = encode_entities(s.drop_last());
        let e = encode_char(c);
        if (c as u32) > 127 {
            crate::text::lemma_decimal_digits((c as u32) as nat);
            let d = decimal((c as u32) as nat);
            assert forall|i: int| 0 <= i < e.len() implies (#[trigger] e[i]) as u32 <= 127 by {
                if 2 <= i < e.len() - 1 {
                    assert(e[i] == d[i - 2]);
                    assert(is_digit(d[i - 2]));
                }
            }
        }
        assert forall|i: int| 0 <= i < encode_entities(s).len() implies (#[trigger] encode_entities(s)[i]) as u32 <= 127 by {
            if i < rest.len() {
                assert(encode_entities(s)[i] == rest[i]);
            } else {
                assert(encode_entities(s)[i] == e[i - rest.len()]);
            }
        }
        if forall|i: int| 0 <= i < s.len() ==> (#[trigger] s[i]) as u32 <= 127 {
            assert forall|i: int| 0 <= i < s.drop_last().len() implies (#[trigger] s.drop_last()[i]) as u32 <= 127 by {
                assert(s.drop_last()[i] == s[i]);
            }
            assert(s.drop_last().push(c) =~= s);
        }
    }
}

/// Replaces every non-ASCII character of `input` by `&#N;`, where N is its
/// code point in decimal.
pub fn encode_unicode_as_html_entities(input: &str) -> (result: String)
    ensures
        result@ == encode_entities(input@),
{
    let mut result = String::new();
    for ch in it: input.chars()
        invariant
            it.seq() == input@,
            result@ == encode_entities(input@.take(it.index() as int)),
    {
        let ghost before = result@;
        let code: u32 = ch as u32;
        if code > 127 {
            push_char(&mut result, '&');
            push_char(&mut result, '#');
            push_decimal(&mut result, code as u64);
            push_char(&mut result, ';');
            assert(result@ =~= before + encode_char(ch));
        } else {
            push_char(&mut result, ch);
        }
        assert(input@.take(it.index() + 1).drop_last() == input@.take(it.index() as int));
    }
    assert(input@.take(input@.len() as int) == input@);
    result
}

/// A span of `t` that the pattern `<SUCCESS>(.+)</SUCCESS>` matches: the
/// opening tag at `s`, the closing tag at `e`, at least one character between
/// them and no line break there.
pub open spec fn success_span(t: Seq<char>, s: int, e: int) -> bool {
    &&& has_at(t, s, "<SUCCESS>"@)
    &&& s + "<SUCCESS>"@.len() < e
    &&& has_at(t, e, "</SUCCESS>"@)
    &&& no_newline(t, s + "<SUCCESS>"@.len(), e)
}

/// The match that leftmost-first matching picks: the earliest start, and for
/// it the latest end.
pub open spec fn first_success_span(t: Seq<char>, s: int, e: int) -> bool {
    &&& success_span(t, s, e)
    &&& forall|s2: int, e2: int| #[trigger] success_span(t, s2, e2) ==> s <= s2 && (s2 == s ==> e2 <= e)
}

/// The text between the tags of the match that leftmost-first matching of
/// `<SUCCESS>(.+)</SUCCESS>` picks in `t`, if the pattern matches at all.
pub open spec fn success_value(t: Seq<char>) -> Option<Seq<char>> {
    if exists|s: int, e: int| success_span(t, s, e) {
        let (s, e): (int, int) = choose|s: int, e: int| first_success_span(t, s, e);
        Some(t.subrange(s + "<SUCCESS>"@.len(), e))
    } else {
        None
    }
}

/// Closing tags at `e` after position `a` with no line break in between.
spec fn close_candidate(t: Seq<char>, close: Seq<char>, a: int, e: int) -> bool {
    a < e && has_at(t, e, close) && no_newline(t, a, e)
}

/// The last closing tag after `a` that no line break separates from `a`.
fn last_close_on_line(t: &Vec<char>, close: &Vec<char>, a: usize) -> (r: Option<usize>)
    requires
        a <= t.len(),
        close.len() > 0,
    ensures
        r matches Some(e) ==> close_candidate(t@, close@, a as int, e as int),
        r matches Some(e) ==> forall|e2: int| #[trigger]
            close_candidate(t@, close@, a as int, e2) ==> e2 <= e,
        r is None ==> forall|e2: int| !#[trigger] close_candidate(t@, close@, a as int, e2),
{
    let mut best: Option<usize> = None;
    let mut j: usize = a;
    while j < t.len()
        invariant
            a <= j <= t.len(),
            close.len() > 0,
            no_newline(t@, a as int, j as int),
            best matches Some(e) ==> e < j && close_candidate(t@, close@, a as int, e as int),
            best matches Some(e) ==> forall|e2: int| #[trigger]
                close_candidate(t@, close@, a as int, e2) && e2 < j ==> e2 <= e,
            best is None ==> forall|e2: int| #[trigger]
                close_candidate(t@, close@, a as int, e2) ==> e2 >= j,
        decreases t.len() - j,
    {
        if j > a && matches_at(t, j, close) {
            best = Some(j);
        }
        if t[j] == '\n' {
            assert forall|e2: int| #[trigger] close_candidate(t@, close@, a as int, e2) implies e2 <= j by {
                if e2 > j {
                    assert(t@[j as int] != '\n');
                }
            }
            return best;
        }
        j = j + 1;
    }
    assert forall|e2: int| #[trigger] close_candidate(t@, close@, a as int, e2) implies e2 < j by {
        assert(has_at(t@, e2, close@));
    }
    best
}

/// The text that `<SUCCESS>(.+)</SUCCESS>` captures in `text` under
/// leftmost-first matching: the match that starts first, and within it the
/// greedy, longest capture that stays on one line.
pub fn extract_success_value(text: &str) -> (r: Option<String>)
    ensures
        match r {
            Some(v) => success_value(text@) == Some(v@),
            None => success_value(text@) is None,
        },
{
    let t = chars_of(text);
    let open = chars_of("<SUCCESS>");
    let close = chars_of("</SUCCESS>");
    proof {
        reveal_strlit("</SUCCESS>");
    }
    let mut s: usize = 0;
    while s < t.len()
        invariant
            t@ == text@,
            open@ == "<SUCCESS>"@,
            close@ == "</SUCCESS>"@,
            close.len() > 0,
            s <= t.len(),
            forall|s2: int, e2: int| #[trigger] success_span(text@, s2, e2) ==> s2 >= s,
        decreases t.len() - s,
    {
        if matches_at(&t, s, &open) {
            let a: usize = s + open.len();
            match last_close_on_line(&t, &close, a) {
                Some(e) => {
                    let v = string_of_range(&t, a, e);
                    assert(success_span(text@, s as int, e as int));
                    assert forall|s2: int, e2: int| #[trigger]
                        success_span(text@, s2, e2) implies s <= s2 && (s2 == s ==> e2 <= e) by {
                        if s2 == s {
                            assert(close_candidate(t@, close@, a as int, e2));
                        }
                    }
                    assert(first_success_span(text@, s as int, e as int));
                    let ghost (cs, ce): (int, int) = choose|s1: int, e1: int| first_success_span(text@, s1, e1);
                    assert(first_success_span(text@, cs, ce));
                    assert(success_span(text@, cs, ce));
                    assert(cs == s && ce == e);
                    return Some(v);
                },
                None => {
                    assert forall|s2: int, e2: int| #[trigger]
                        success_span(text@, s2, e2) implies s2 >= s + 1 by {
                        if s2 == s {
                            assert(close_candidate(t@, close@, a as int, e2));
                        }
                    }
                },
            }
        }
        s = s + 1;
    }
    assert forall|s2: int, e2: int| !#[trigger] success_span(text@, s2, e2) by {
        if success_span(text@, s2, e2) {
            assert(has_at(text@, s2, "<SUCCESS>"@));
        }
    }
    None
}

/// A place where `/id=([0-9]+)` can match in `t`: the marker at `s`, then a digit.
pub open spec fn id_marker_at(t: Seq<char>, s: int) -> bool {
    &&& has_at(t, s, "/id="@)
    &&& s + "/id="@.len() < t.len()
    &&& is_digit(t[s + "/id="@.len()])
}

/// `t[a..e]` is a longest run of digits starting at `a`.
pub open spec fn digit_run(t: Seq<char>, a: int, e: int) -> bool {
    &&& 0 <= a < e <= t.len()
    &&& all_digits(t.subrange(a, e))
    &&& (e == t.len() || !is_digit(t[e]))
}

/// The dispatch id that `/id=([0-9]+)` captures in `text` (the first match,
/// with all of its digits), read as a 64-bit number; `None` where the pattern
/// does not match or the number does not fit.
pub fn extract_dispatch_id(text: &str) -> (r: Option<u64>)
    ensures
        (forall|s: int| !#[trigger] id_marker_at(text@, s)) ==> r is None,
        forall|s: int, e: int|
            #![trigger id_marker_at(text@, s), digit_run(text@, s + "/id="@.len(), e)]
            id_marker_at(text@, s) && (forall|s2: int| s2 < s ==> !#[trigger] id_marker_at(text@, s2))
                && digit_run(text@, s + "/id="@.len(), e)
                ==> r == parse_u64_spec(text@.subrange(s + "/id="@.len(), e)),
{
    let t = chars_of(text);
    let marker = chars_of("/id=");
    let mut s: usize = 0;
    while s < t.len()
        invariant
            t@ == text@,
            marker@ == "/id="@,
            s <= t.len(),
            forall|s2: int| s2 < s ==> !#[trigger] id_marker_at(text@, s2),
        decreases t.len() - s,
    {
        if matches_at(&t, s, &marker) && s + marker.len() < t.len() && '0' <= t[s + marker.len()]
            && t[s + marker.len()] <= '9' {
            let a: usize = s + marker.len();
            let mut e: usize = a + 1;
            let mut digits: Vec<char> = Vec::new();
            digits.push(t[a]);
            while e < t.len() && '0' <= t[e] && t[e] <= '9'
                invariant
                    t@ == text@,
                    a < e <= t.len(),
                    digits@ == t@.subrange(a as int, e as int),
                    all_digits(t@.subrange(a as int, e as int)),
                decreases t.len() - e,
            {
                digits.push(t[e]);
                assert(t@.subrange(a as int, e + 1) == t@.subrange(a as int, e as int).push(t@[e as int]));
                e = e + 1;
            }
            assert(digit_run(text@, a as int, e as int));
            assert(id_marker_at(text@, s as int));
            let r = parse_u64_chars(&digits);
            assert forall|s1: int, e1: int|
                #![trigger id_marker_at(text@, s1), digit_run(text@, s1 + "/id="@.len(), e1)]
                id_marker_at(text@, s1) && (forall|s2: int| s2 < s1 ==> !#[trigger] id_marker_at(text@, s2))
                    && digit_run(text@, s1 + "/id="@.len(), e1)
                implies r == parse_u64_spec(text@.subrange(s1 + "/id="@.len(), e1)) by {
                assert(s1 == s);
                if e1 < e {
                    assert(is_digit(t@.subrange(a as int, e as int)[e1 - a]));
                } else if e1 > e {
                    assert(is_digit(text@.subrange(a as int, e1)[e - a]));
                }
            }
            return r;
        }
        s = s + 1;
    }
    assert forall|s2: int| !#[trigger] id_marker_at(text@, s2) by {
        if id_marker_at(text@, s2) {
            assert(has_at(text@, s2, "/id="@));
        }
    }
    None
}

/// Why a request to the API failed.
pub enum ApiError {
    /// Too many requests; the limit resets after this many seconds.
    RateLimit(u64),
    /// The request could not be made; the client's description of why.
    RequestError(String),
    TimedOut,
    NotFound,
    ServerError,
}

/// `ApiError` as plain values.
pub enum ApiErrorView {
    RateLimit(u64),
    RequestError(Seq<char>),
    TimedOut,
    NotFound,
    ServerError,
}

impl View for ApiError {
    type V = ApiErrorView;

    open spec fn view(&self) -> ApiErrorView {
        match self {
            ApiError::RateLimit(s) => ApiErrorView::RateLimit(*s),
            ApiError::RequestError(m) => ApiErrorView::RequestError(m@),
            ApiError::TimedOut => ApiErrorView::TimedOut,
            ApiError::NotFound => ApiErrorView::NotFound,
            ApiError::ServerError => ApiErrorView::ServerError,
        }
    }
}

/// How an error is described to the user.
pub open spec fn api_error_message(e: ApiErrorView) -> Seq<char> {
    match e {
        ApiErrorView::RateLimit(s) => "Rate limited, resets in "@ + decimal(s as nat) + " seconds"@,
        ApiErrorView::RequestError(m) => "Request error "@ + m,
        ApiErrorView::TimedOut => "Request timed out"@,
        ApiErrorView::NotFound => "Requested entity does not exist"@,
        ApiErrorView::ServerError => "API server error"@,
    }
}

impl ApiError {
    /// The description of the error shown to the user.
    pub fn message(&self) -> (r: String)
        ensures
            r@ == api_error_message(self@),
    {
        match self {
            ApiError::RateLimit(secs) => {
                let mut r = String::from_str("Rate limited, resets in ");
                push_decimal(&mut r, *secs);
                r.append(" seconds");
                r
            },
            ApiError::RequestError(m) => String::from_str("Request error ").concat(m.as_str()),
            ApiError::TimedOut => String::from_str("Request timed out"),
            ApiError::NotFound => String::from_str("Requested entity does not exist"),
            ApiError::ServerError => String::from_str("API server error"),
        }
    }
}

/// Seconds to wait after a rate limit whose reply gives no usable
/// `retry-after` header.
pub const DEFAULT_RATE_LIMIT_SECS: u64 = 30;

/// Seconds to wait after a timed-out request before trying again.
pub const TIMEOUT_RETRY_SECS: u64 = 20;

/// What a reply with this status and these headers means, before its body is
/// read: an error for 429 (with the wait the `retry-after` header asks for,
/// thirty seconds where it gives no number), 404 and every 5xx status.
pub open spec fn response_error(status: u16, retry_after: Option<Seq<char>>) -> Option<ApiErrorView> {
    if status == 429 {
        Some(ApiErrorView::RateLimit(
            match retry_after {
                Some(h) => match parse_u64_spec(h) {
                    Some(v) => v,
                    None => DEFAULT_RATE_LIMIT_SECS,
                },
                None => DEFAULT_RATE_LIMIT_SECS,
            },
        ))
    } else if status == 404 {
        Some(ApiErrorView::NotFound)
    } else if 500 <= status <= 599 {
        Some(ApiErrorView::ServerError)
    } else {
        None
    }
}

/// The API's client-side state: the autologin tokens it sends and the
/// session pins the API handed out, both keyed by nation.
pub struct Session {
    credentials: Option<Credentials>,
    pins: KeyedList<String>,
}

/// A header to send, as name and value.
pub type Header = (String, String);

pub open spec fn headers_view(h: Seq<Header>) -> Seq<(Seq<char>, Seq<char>)> {
    h.map_values(|e: Header| (e.0@, e.1@))
}

/// The login headers for a request on behalf of `nation`: the password if one
/// is given, the nation's autologin token if one is known, and its session
/// pin if the API has handed one out, in that order.
pub open spec fn auth_headers_spec(
    password: Option<Seq<char>>,
    token: Option<Seq<char>>,
    pin: Option<Seq<char>>,
) -> Seq<(Seq<char>, Seq<char>)> {
    let a = match password {
        Some(p) => seq![("X-Password"@, p)],
        None => Seq::empty(),
    };
    let b = match token {
        Some(t) => seq![("X-Autologin"@, t)],
        None => Seq::empty(),
    };
    let c = match pin {
        Some(p) => seq![("X-Pin"@, p)],
        None => Seq::empty(),
    };
    a + b + c
}

impl Session {
    pub closed spec fn wf(&self) -> bool {
        &&& self.pins.wf()
        &&& (self.credentials matches Some(c) ==> c.wf())
    }

    /// The autologin tokens known, where credentials were given.
    pub closed spec fn tokens(&self) -> Option<Map<Seq<char>, Seq<char>>> {
        match self.credentials {
            Some(c) => Some(c@),
            None => None,
        }
    }

    /// The session pins received so far.
    pub closed spec fn pins(&self) -> Map<Seq<char>, Seq<char>> {
        self.pins.map().map_values(|p: String| p@)
    }

    /// A session that logs in with the given credentials and holds no pins yet.
    pub fn new(credentials: Option<Credentials>) -> (r: Session)
        requires
            credentials matches Some(c) ==> c.wf(),
        ensures
            r.wf(),
            r.tokens() == (match credentials {
                Some(c) => Some(c@),
                None => None::<Map<Seq<char>, Seq<char>>>,
            }),
            r.pins() == Map::<Seq<char>, Seq<char>>::empty(),
    {
        let r = Session { credentials, pins: KeyedList::new() };
        assert(r.pins() =~= Map::<Seq<char>, Seq<char>>::empty());
        r
    }

    /// The login headers for a request on behalf of `nation`.
    pub fn make_auth_headers(&self, nation: &str, password: Option<String>) -> (r: Vec<Header>)
        requires
            self.wf(),
        ensures
            headers_view(r@) == auth_headers_spec(
                match password {
                    Some(p) => Some(p@),
                    None => None,
                },
                match self.tokens() {
                    Some(m) => token_of(m, nation@),
                    None => None,
                },
                token_of(self.pins(), nation@),
            ),
    {
        let mut r: Vec<Header> = Vec::new();
        let ghost pw = match &password {
            Some(p) => Some(p@),
            None => None::<Seq<char>>,
        };
        if let Some(password) = password {
            r.push((String::from_str("X-Password"), password));
        }
        let ghost after_a = r@;
        assert(headers_view(after_a) =~= auth_headers_spec(pw, None, None));
        let ghost tok = match self.tokens() {
            Some(m) => token_of(m, nation@),
            None => None,
        };
        if let Some(credentials) = &self.credentials {
            if let Some(token) = credentials.get(nation) {
                r.push((String::from_str("X-Autologin"), token.clone()));
            }
        }
        let ghost after_b = r@;
        assert(headers_view(after_b) =~= auth_headers_spec(pw, tok, None));
        let ghost pn = token_of(self.pins(), nation@);
        match self.pins.get(nation) {
            Some(pin) => {
                r.push((String::from_str("X-Pin"), pin.clone()));
            },
            None => {},
        }
        assert(headers_view(r@) =~= auth_headers_spec(pw, tok, pn));
        r
    }

    /// Takes in the status and headers of a reply to a request made on behalf
    /// of `nation`: an error status ends the request with its error; any
    /// other reply goes on to its body, and a session pin it carries is kept
    /// for the nation's later requests.
    pub fn handle_response(
        &mut self,
        nation: &str,
        status: u16,
        retry_after: Option<String>,
        pin: Option<String>,
    ) -> (r: Result<(), ApiError>)
        requires
            old(self).wf(),
        ensures
            final(self).wf(),
            final(self).tokens() == old(self).tokens(),
            match response_error(status, match retry_after {
                Some(h) => Some(h@),
                None => None,
            }) {
                Some(e) => r matches Err(err) && err@ == e && final(self).pins() == old(self).pins(),
                None => r is Ok && final(self).pins() == (match pin {
                    Some(p) => old(self).pins().insert(nation@, p@),
                    None => old(self).pins(),
                }),
            },
    {
        if status == 429 {
            let secs: u64 = match &retry_after {
                Some(h) => match parse_u64(h.as_str()) {
                    Some(v) => v,
                    None => DEFAULT_RATE_LIMIT_SECS,
                },
                None => DEFAULT_RATE_LIMIT_SECS,
            };
            return Err(ApiError::RateLimit(secs));
        }
        if status == 404 {
            return Err(ApiError::NotFound);
        }
        if 500 <= status && status <= 599 {
            return Err(ApiError::ServerError);
        }
        if let Some(p) = pin {
            let ghost pv = p@;
            self.pins.insert(String::from_str(nation), p);
            assert(self.pins() =~= old(self).pins().insert(nation@, pv));
        }
        Ok(())
    }
}

/// What to do after a failed request.
pub enum RetryStep {
    /// Report this error.
    GiveUp(ApiError),
    /// Wait this many seconds, then make the request once more.
    WaitThenRetry(u64),
}

/// The retry rule: a request is tried again once, and only after a rate limit
/// (waiting as long as the API asks) or a timeout (waiting twenty seconds).
pub open spec fn retry_wait(retried: bool, err: ApiErrorView) -> Option<u64> {
    if retried {
        None
    } else {
        match err {
            ApiErrorView::RateLimit(s) => Some(s),
            ApiErrorView::TimedOut => Some(TIMEOUT_RETRY_SECS),
            _ => None,
        }
    }
}

/// Decides what follows the failure `err`; `retried` tells whether the
/// request has been tried again already.
pub fn retry_step(retried: bool, err: ApiError) -> (r: RetryStep)
    ensures
        match retry_wait(retried, err@) {
            Some(s) => r == RetryStep::WaitThenRetry(s),
            None => r matches RetryStep::GiveUp(e) && e@ == err@,
        },
{
    if retried {
        return RetryStep::GiveUp(err);
    }
    match err {
        ApiError::RateLimit(secs) => RetryStep::WaitThenRetry(secs),
        ApiError::TimedOut => RetryStep::WaitThenRetry(TIMEOUT_RETRY_SECS),
        _ => RetryStep::GiveUp(err),
    }
}

/// Whether the request has been tried again once it has failed with `err`,
/// given whether it had been before.
pub open spec fn retried_after(retried: bool, err: ApiErrorView) -> bool {
    retried || retry_wait(retried, err) is Some
}

/// The state of one request's retries: whether it has been tried again.
pub struct RetryState {
    retried: bool,
}

impl RetryState {
    /// Whether the request has been tried again already.
    pub closed spec fn retried(&self) -> bool {
        self.retried
    }

    /// The state of a request not yet tried again.
    pub fn new() -> (r: RetryState)
        ensures
            !r.retried(),
    {
        RetryState { retried: false }
    }

    /// Takes in the failure `err` of the latest attempt: decides what follows
    /// by `retry_step`, and notes that the request is tried again where it is.
    pub fn on_failure(&mut self, err: ApiError) -> (r: RetryStep)
        ensures
            final(self).retried() == retried_after(old(self).retried(), err@),
            match retry_wait(old(self).retried(), err@) {
                Some(s) => r == RetryStep::WaitThenRetry(s),
                None => r matches RetryStep::GiveUp(e) && e@ == err@,
            },
    {
        let ghost e = err@;
        let step = retry_step(self.retried, err);
        if let RetryStep::WaitThenRetry(_) = step {
            self.retried = true;
        }
        assert(self.retried == retried_after(old(self).retried(), e));
        step
    }
}

/// A request is made at most twice: once it has been tried again, every
/// failure is reported; only rate limits and timeouts are tried again; and
/// from a fresh state, after one wait the state is that of a request tried
/// again, so the next failure, whatever it is, is reported.
pub proof fn law_at_most_one_retry(err: ApiErrorView, next: ApiErrorView)
    ensures
        retry_wait(true, err) is None,
        retried_after(true, err),
        retry_wait(false, err) is Some <==> (err is RateLimit || err is TimedOut),
        retry_wait(false, err) is Some ==> retry_wait(retried_after(false, err), next) is None,
        retry_wait(false, err) is None ==> !retried_after(false, err),
{
}

/// The parameters of the request that asks for `nation`'s autologin token.
pub fn autologin_params(nation: &str) -> (r: Vec<Header>)
    ensures
        headers_view(r@) == seq![("nation"@, nation@), ("q"@, "ping"@)],
{
    let r = vec![
        (String::from_str("nation"), String::from_str(nation)),
        (String::from_str("q"), String::from_str("ping")),
    ];
    assert(headers_view(r@) =~= seq![("nation"@, nation@), ("q"@, "ping"@)]);
    r
}

/// The fields of a dispatch to create or edit, as the API takes them.
pub struct DispatchJob {
    nation: String,
    title: String,
    text: String,
    category: String,
    subcategory: String,
    dispatchid: Option<String>,
}

/// The request parameters of a dispatch command: the fields, the dispatch id
/// when an existing dispatch is edited, the command, the mode, and, in
/// `execute` mode, the token that the `prepare` step returned.
pub open spec fn dispatch_params_spec(
    nation: Seq<char>,
    title: Seq<char>,
    content: Seq<char>,
    category: u64,
    subcategory: u64,
    dispatchid: Option<u64>,
    token: Option<Seq<char>>,
) -> Seq<(Seq<char>, Seq<char>)> {
    let fields = seq![
        ("nation"@, nation),
        ("title"@, title),
        ("text"@, encode_entities(content)),
        ("category"@, decimal(category as nat)),
        ("subcategory"@, decimal(subcategory as nat)),
    ];
    let target = match dispatchid {
        Some(d) => seq![("dispatchid"@, decimal(d as nat))],
        None => Seq::empty(),
    };
    let command = seq![
        ("c"@, "dispatch"@),
        ("dispatch"@, if dispatchid is Some { "edit"@ } else { "add"@ }),
    ];
    let mode = match token {
        None => seq![("mode"@, "prepare"@)],
        Some(t) => seq![("mode"@, "execute"@), ("token"@, t)],
    };
    fields + target + command + mode
}

/// The two requests of one dispatch command agree: the second is the first
/// with its `mode` set to `execute` and the token added; and the command is
/// `edit` exactly when a dispatch id is given, naming that id, in both.
pub proof fn law_dispatch_requests_agree(
    nation: Seq<char>,
    title: Seq<char>,
    content: Seq<char>,
    category: u64,
    subcategory: u64,
    dispatchid: Option<u64>,
    token: Seq<char>,
)
    ensures
        dispatch_params_spec(nation, title, content, category, subcategory, dispatchid, None).last()
            == ("mode"@, "prepare"@),
        dispatch_params_spec(nation, title, content, category, subcategory, dispatchid, Some(token))
            == dispatch_params_spec(nation, title, content, category, subcategory, dispatchid, None).drop_last()
            + seq![("mode"@, "execute"@), ("token"@, token)],
        forall|t: Option<Seq<char>>| #![trigger dispatch_params_spec(nation, title, content, category, subcategory, dispatchid, t)]
            dispatchid is Some ==> {
                &&& dispatch_params_spec(nation, title, content, category, subcategory, dispatchid, t)[5]
                    == ("dispatchid"@, decimal(dispatchid->0 as nat))
                &&& dispatch_params_spec(nation, title, content, category, subcategory, dispatchid, t)[6]
                    == ("c"@, "dispatch"@)
                &&& dispatch_params_spec(nation, title, content, category, subcategory, dispatchid, t)[7]
                    == ("dispatch"@, "edit"@)
            },
        forall|t: Option<Seq<char>>| #![trigger dispatch_params_spec(nation, title, content, category, subcategory, dispatchid, t)]
            dispatchid is None ==> {
                &&& dispatch_params_spec(nation, title, content, category, subcategory, dispatchid, t)[5]
                    == ("c"@, "dispatch"@)
                &&& dispatch_params_spec(nation, title, content, category, subcategory, dispatchid, t)[6]
                    == ("dispatch"@, "add"@)
            },
        forall|t: Option<Seq<char>>| #![trigger dispatch_params_spec(nation, title, content, category, subcategory, dispatchid, t)]
            dispatch_params_spec(nation, title, content, category, subcategory, dispatchid, t).take(5) == seq![
                ("nation"@, nation),
                ("title"@, title),
                ("text"@, encode_entities(content)),
                ("category"@, decimal(category as nat)),
                ("subcategory"@, decimal(subcategory as nat)),
            ],
{
    assert(dispatch_params_spec(nation, title, content, category, subcategory, dispatchid, Some(token))
        =~= dispatch_params_spec(nation, title, content, category, subcategory, dispatchid, None).drop_last()
        + seq![("mode"@, "execute"@), ("token"@, token)]);
    assert forall|t: Option<Seq<char>>| #![trigger dispatch_params_spec(nation, title, content, category, subcategory, dispatchid, t)]
        true implies dispatch_params_spec(nation, title, content, category, subcategory, dispatchid, t).take(5) == seq![
            ("nation"@, nation),
            ("title"@, title),
            ("text"@, encode_entities(content)),
            ("category"@, decimal(category as nat)),
            ("subcategory"@, decimal(subcategory as nat)),
        ] by {
        assert(dispatch_params_spec(nation, title, content, category, subcategory, dispatchid, t).take(5) =~= seq![
            ("nation"@, nation),
            ("title"@, title),
            ("text"@, encode_entities(content)),
            ("category"@, decimal(category as nat)),
            ("subcategory"@, decimal(subcategory as nat)),
        ]);
    }
}

impl DispatchJob {
    /// This job's parameters for the given mode.
    pub closed spec fn params_for(&self, token: Option<Seq<char>>) -> Seq<(Seq<char>, Seq<char>)> {
        let target = match self.dispatchid {
            Some(d) => seq![("dispatchid"@, d@)],
            None => Seq::empty(),
        };
        let command = seq![
            ("c"@, "dispatch"@),
            ("dispatch"@, if self.dispatchid is Some { "edit"@ } else { "add"@ }),
        ];
        let mode = match token {
            None => seq![("mode"@, "prepare"@)],
            Some(t) => seq![("mode"@, "execute"@), ("token"@, t)],
        };
        seq![
            ("nation"@, self.nation@),
            ("title"@, self.title@),
            ("text"@, self.text@),
            ("category"@, self.category@),
            ("subcategory"@, self.subcategory@),
        ] + target + command + mode
    }

    /// The job is the dispatch command with these arguments.
    pub open spec fn is_for(
        &self,
        nation: Seq<char>,
        title: Seq<char>,
        content: Seq<char>,
        category: u64,
        subcategory: u64,
        dispatchid: Option<u64>,
    ) -> bool {
        forall|token: Option<Seq<char>>| #[trigger] self.params_for(token) == dispatch_params_spec(
            nation, title, content, category, subcategory, dispatchid, token)
    }

    /// A job that publishes a new dispatch; its text is `content` with every
    /// non-ASCII character written as an HTML character reference.
    pub fn new_create(nation: &str, title: &str, category: u64, subcategory: u64, content: &str) -> (r: DispatchJob)
        ensures
            r.is_for(nation@, title@, content@, category, subcategory, None),
    {
        let r = DispatchJob {
            nation: String::from_str(nation),
            title: String::from_str(title),
            text: encode_unicode_as_html_entities(content),
            category: crate::text::decimal_string(category),
            subcategory: crate::text::decimal_string(subcategory),
            dispatchid: None,
        };
        assert forall|token: Option<Seq<char>>| #[trigger] r.params_for(token) == dispatch_params_spec(
            nation@, title@, content@, category, subcategory, None, token) by {
            assert(r.params_for(token) =~= dispatch_params_spec(
                nation@, title@, content@, category, subcategory, None, token));
        }
        r
    }

    /// A job that replaces the dispatch `dispatchid`.
    pub fn new_edit(
        nation: &str,
        title: &str,
        category: u64,
        subcategory: u64,
        dispatchid: u64,
        content: &str,
    ) -> (r: DispatchJob)
        ensures
            r.is_for(nation@, title@, content@, category, subcategory, Some(dispatchid)),
    {
        let r = DispatchJob {
            nation: String::from_str(nation),
            title: String::from_str(title),
            text: encode_unicode_as_html_entities(content),
            category: crate::text::decimal_string(category),
            subcategory: crate::text::decimal_string(subcategory),
            dispatchid: Some(crate::text::decimal_string(dispatchid)),
        };
        assert forall|token: Option<Seq<char>>| #[trigger] r.params_for(token) == dispatch_params_spec(
            nation@, title@, content@, category, subcategory, Some(dispatchid), token) by {
            assert(r.params_for(token) =~= dispatch_params_spec(
                nation@, title@, content@, category, subcategory, Some(dispatchid), token));
        }
        r
    }

    fn params(&self, token: Option<&str>) -> (r: Vec<Header>)
        ensures
            headers_view(r@) == self.params_for(
                match token {
                    Some(t) => Some(t@),
                    None => None,
                },
            ),
    {
        let mut r: Vec<Header> = vec![
            (String::from_str("nation"), self.nation.clone()),
            (String::from_str("title"), self.title.clone()),
            (String::from_str("text"), self.text.clone()),
            (String::from_str("category"), self.category.clone()),
            (String::from_str("subcategory"), self.subcategory.clone()),
        ];
        let is_edit = self.dispatchid.is_some();
        if let Some(d) = &self.dispatchid {
            r.push((String::from_str("dispatchid"), d.clone()));
        }
        r.push((String::from_str("c"), String::from_str("dispatch")));
        if is_edit {
            r.push((String::from_str("dispatch"), String::from_str("edit")));
        } else {
            r.push((String::from_str("dispatch"), String::from_str("add")));
        }
        match token {
            None => {
                r.push((String::from_str("mode"), String::from_str("prepare")));
            },
            Some(t) => {
                r.push((String::from_str("mode"), String::from_str("execute")));
                r.push((String::from_str("token"), String::from_str(t)));
            },
        }
        assert(headers_view(r@) =~= self.params_for(
            match token {
                Some(t) => Some(t@),
                None => None,
            },
        ));
        r
    }

    /// The parameters of the first request, which asks the API to prepare
    /// the command.
    pub fn prepare_params(&self) -> (r: Vec<Header>)
        ensures
            headers_view(r@) == self.params_for(None),
    {
        self.params(None)
    }

    /// Given the reply to the first request, the parameters of the second,
    /// which executes the command with the token that the reply carries;
    /// `None` where the reply carries no token, which ends the command
    /// without a dispatch.
    pub fn execute_params(&self, prepare_response: &str) -> (r: Option<Vec<Header>>)
        ensures
            r is None <==> success_value(prepare_response@) is None,
            r matches Some(p) ==> headers_view(p@) == self.params_for(success_value(prepare_response@)),
    {
        match extract_success_value(prepare_response) {
            None => None,
            Some(token) => {
                let p = self.params(Some(token.as_str()));
                Some(p)
            },
        }
    }
}

} // verus!
