//! What the HTTP server answers.

use vstd::prelude::*;

use crate::downstream;
use crate::ids;
use crate::ids::SessionId;
use crate::registry::{RegisteredStream, StreamRegistry};
use crate::text;
use crate::types::StreamCodec;

verus! {

/// Why a request is refused.
#[derive(Clone, Copy, Debug, PartialEq, Eq, Structural)]
pub enum Refusal {
    BadRequest,
    NotFound,
    ServiceUnavailable,
}

impl Refusal {
    /// The HTTP status code.
    pub fn code(&self) -> (r: u16)
        ensures
            r == match self {
                Refusal::BadRequest => 400u16,
                Refusal::NotFound => 404u16,
                Refusal::ServiceUnavailable => 503u16,
            },
    {
        match self {
            Refusal::BadRequest => 400,
            Refusal::NotFound => 404,
            Refusal::ServiceUnavailable => 503,
        }
    }
}

/// Why the HTTP server failed, in the system's words.
#[derive(Debug, PartialEq, Eq)]
pub enum HttpServerError {
    Bind(String),
    Serve(String),
}

/// What a health check is answered.
pub fn healthz() -> (r: &'static str)
    ensures
        r@ == "ok\n"@,
{
    "ok\n"
}

/// The media type of metrics.
pub fn metrics_content_type() -> (r: &'static str)
    ensures
        r@ == "text/plain; version=0.0.4"@,
{
    "text/plain; version=0.0.4"
}

/// The media type of a codec.
pub fn content_type(codec: StreamCodec) -> (r: &'static str)
    ensures
        r@ == match codec {
            StreamCodec::Mp3 => "audio/mpeg"@,
            StreamCodec::Aac => "audio/aac"@,
            StreamCodec::Wav => "audio/wav"@,
        },
{
    match codec {
        StreamCodec::Mp3 => "audio/mpeg",
        StreamCodec::Aac => "audio/aac",
        StreamCodec::Wav => "audio/wav",
    }
}

// ---------------------------------------------------------------------------
// Which stream is asked for
// ---------------------------------------------------------------------------
/// A name without the extension of a stream, where it has one.
pub open spec fn stem(name: Seq<char>) -> Seq<char> {
    if text::ends_with(name, ".mp3"@) || text::ends_with(name, ".wav"@) || text::ends_with(
        name,
        ".aac"@,
    ) {
        name.take(name.len() - 4)
    } else {
        name
    }
}

/// The session whose stream is asked for by a name.
pub fn requested_session(name: &str) -> (r: Result<SessionId, Refusal>)
    ensures
        match ids::uuid_value(stem(name@)) {
            Some(v) => r is Ok && r->Ok_0.value == v,
            None => r == Err::<SessionId, Refusal>(Refusal::BadRequest),
        },
{
    let chars = text::to_chars(name);
    let mp3 = text::to_chars(".mp3");
    let wav = text::to_chars(".wav");
    let aac = text::to_chars(".aac");
    proof {
        reveal_strlit(".mp3");
        reveal_strlit(".wav");
        reveal_strlit(".aac");
    }
    let known: bool = text::has_suffix(&chars, &mp3) || text::has_suffix(&chars, &wav)
        || text::has_suffix(&chars, &aac);
    let end: usize = if known {
        chars.len() - 4
    } else {
        chars.len()
    };
    let id_text = text::slice_text(&chars, 0, end);
    assert(id_text@ =~= stem(name@));
    match SessionId::parse(id_text.as_str()) {
        Ok(id) => Ok(id),
        Err(_) => Err(Refusal::BadRequest),
    }
}

/// The end of the first pair of a query.
pub open spec fn pair_end(query: Seq<char>) -> int {
    match text::find_char_from(query, '&', 0) {
        Some(i) => i,
        None => query.len() as int,
    }
}

/// The generation that the first pair of a query gives, if it gives one: whether
/// it is a number.
pub open spec fn pair_generation(pair: Seq<char>) -> Option<Option<nat>> {
    match text::find_char_from(pair, '=', 0) {
        Some(i) => if pair.take(i) == "gen"@ {
            Some(text::parse_unsigned(pair.skip(i + 1), u64::MAX as nat))
        } else {
            None
        },
        None => None,
    }
}

/// The generation that a query asks for: that of the first pair that gives one,
/// which has to be a number; or none.
pub open spec fn query_generation(query: Seq<char>) -> Result<Option<nat>, Refusal>
    decreases query.len(),
{
    let end = pair_end(query);
    match pair_generation(query.take(end)) {
        Some(Some(n)) => Ok(Some(n)),
        Some(None) => Err(Refusal::BadRequest),
        None => if 0 <= end < query.len() {
            query_generation(query.skip(end + 1))
        } else {
            Ok(None)
        },
    }
}

/// The generation that a request asks for.
pub open spec fn asked_generation(query: Option<Seq<char>>) -> Result<Option<nat>, Refusal> {
    match query {
        Some(q) => query_generation(q),
        None => Ok(None),
    }
}

/// Whether a result is the generation asked for.
pub open spec fn same_generation(
    r: Result<Option<u64>, Refusal>,
    asked: Result<Option<nat>, Refusal>,
) -> bool {
    match asked {
        Ok(Some(n)) => n <= u64::MAX && r == Ok::<Option<u64>, Refusal>(Some(n as u64)),
        Ok(None) => r == Ok::<Option<u64>, Refusal>(None),
        Err(refusal) => r == Err::<Option<u64>, Refusal>(refusal),
    }
}

/// The text of an optional query.
pub open spec fn query_text(query: Option<&str>) -> Option<Seq<char>> {
    match query {
        Some(q) => Some(q@),
        None => None,
    }
}

/// The generation that a request asks for.
pub fn stream_generation(query: Option<&str>) -> (r: Result<Option<u64>, Refusal>)
    ensures
        same_generation(r, asked_generation(query_text(query))),
{
    let chars = match query {
        Some(q) => text::to_chars(q),
        None => return Ok(None),
    };
    let mut from: usize = 0;
    assert(chars@.skip(0) =~= chars@);
    loop
        invariant
            from <= chars@.len(),
            query_text(query) == Some(chars@),
            query_generation(chars@) == query_generation(chars@.skip(from as int)),
        ensures
            query_generation(chars@) == Ok::<Option<nat>, Refusal>(None),
        decreases chars@.len() - from,
    {
        let ghost rest = chars@.skip(from as int);
        let amp = text::find_char(&chars, '&', from);
        let end: usize = match amp {
            Some(i) => i,
            None => chars.len(),
        };
        let ghost pair = rest.take(pair_end(rest));
        proof {
            lemma_find_shifted(chars@, '&', from as int, from as int);
            assert(end == from + pair_end(rest));
            assert(pair =~= chars@.subrange(from as int, end as int));
        }
        let eq = text::find_char(&chars, '=', from);
        proof {
            lemma_find_shifted(chars@, '=', from as int, from as int);
            lemma_find_in_prefix(rest, '=', pair_end(rest));
        }
        if let Some(i) = eq {
            if i < end {
                let key = text::slice_text(&chars, from, i);
                assert(key@ =~= pair.take(i - from));
                if text::same_text(key.as_str(), "gen") {
                    assert(pair.skip(i - from + 1) =~= chars@.subrange(i + 1, end as int));
                    return match text::parse_number(&chars, i + 1, end, u64::MAX) {
                        Some(n) => Ok(Some(n)),
                        None => Err(Refusal::BadRequest),
                    };
                }
            }
        }
        assert(pair_generation(pair) is None);
        if end == chars.len() {
            break;
        }
        assert(rest.skip(pair_end(rest) + 1) =~= chars@.skip(end + 1));
        from = end + 1;
    }
    Ok(None)
}

/// A character is found in a tail where it is found in the whole.
proof fn lemma_find_shifted(s: Seq<char>, c: char, base: int, from: int)
    requires
        0 <= base <= from <= s.len(),
    ensures
        text::find_char_from(s.skip(base), c, from - base) == match text::find_char_from(s, c, from) {
            Some(i) => Some(i - base),
            None => None::<int>,
        },
        text::find_char_from(s, c, from) matches Some(i) ==> from <= i < s.len(),
    decreases s.len() - from,
{
    if from < s.len() {
        assert(s.skip(base)[from - base] == s[from]);
        if s[from] != c {
            lemma_find_shifted(s, c, base, from + 1);
        }
    }
}

/// A character is found in a prefix where it is found in the whole, unless it
/// only stands behind the prefix.
proof fn lemma_find_in_prefix(s: Seq<char>, c: char, n: int)
    requires
        0 <= n <= s.len(),
    ensures
        text::find_char_from(s.take(n), c, 0) == match text::find_char_from(s, c, 0) {
            Some(i) => if i < n {
                Some(i)
            } else {
                None
            },
            None => None::<int>,
        },
{
    text::lemma_find_char(s, c, 0);
    text::lemma_find_char(s.take(n), c, 0);
    match text::find_char_from(s, c, 0) {
        Some(i) => {
            if i < n {
                assert(s.take(n)[i] == c);
                text::lemma_find_char_at(s.take(n), c, 0, i);
            } else {
                match text::find_char_from(s.take(n), c, 0) {
                    Some(j) => {
                        assert(s.take(n)[j] == s[j]);
                    },
                    None => {},
                }
            }
        },
        None => {
            match text::find_char_from(s.take(n), c, 0) {
                Some(j) => {
                    assert(s.take(n)[j] == s[j]);
                },
                None => {},
            }
        },
    }
}

/// The stream that a request is answered with: that of the session it names, if
/// it is registered and of the generation asked for, where one is asked for.
pub fn stream_session<'a, H>(
    registry: &'a StreamRegistry<H>,
    name: &str,
    query: Option<&str>,
) -> (r: Result<&'a RegisteredStream<H>, Refusal>)
    ensures
        match ids::uuid_value(stem(name@)) {
            None => r == Err::<&RegisteredStream<H>, Refusal>(Refusal::BadRequest),
            Some(v) => {
                let id = SessionId { value: v as u128 };
                if !registry@.dom().contains(id) {
                    r == Err::<&RegisteredStream<H>, Refusal>(Refusal::NotFound)
                } else {
                    match asked_generation(query_text(query)) {
                        Err(refusal) => r == Err::<&RegisteredStream<H>, Refusal>(refusal),
                        Ok(Some(n)) => if n == registry@[id].session.generation {
                            r is Ok && *r->Ok_0 == registry@[id]
                        } else {
                            r == Err::<&RegisteredStream<H>, Refusal>(Refusal::NotFound)
                        },
                        Ok(None) => r is Ok && *r->Ok_0 == registry@[id],
                    }
                }
            },
        },
{
    let session_id = match requested_session(name) {
        Ok(id) => id,
        Err(refusal) => return Err(refusal),
    };
    let stream = match registry.get(&session_id) {
        Some(stream) => stream,
        None => return Err(Refusal::NotFound),
    };
    match stream_generation(query) {
        Err(refusal) => Err(refusal),
        Ok(None) => Ok(stream),
        Ok(Some(generation)) => if generation == stream.session.generation {
            Ok(stream)
        } else {
            Err(Refusal::NotFound)
        },
    }
}

/// The name and the query under which a player is told to get the stream of a
/// session's attempt lead back to that session and that attempt.
pub proof fn stream_urls_lead_back(id: SessionId, codec: StreamCodec, generation: u64)
    ensures
        ids::uuid_value(
            stem(ids::uuid_text(id.value) + "."@ + downstream::extension_of(codec)),
        ) == Some(id.value as nat),
        query_generation("gen"@ + "="@ + text::decimal(generation as nat)) == Ok::<
            Option<nat>,
            Refusal,
        >(Some(generation as nat)),
{
    reveal_strlit(".mp3");
    reveal_strlit(".wav");
    reveal_strlit(".aac");
    reveal_strlit("mp3");
    reveal_strlit("wav");
    reveal_strlit("aac");
    reveal_strlit(".");
    reveal_strlit("gen");
    reveal_strlit("=");
    let t = ids::uuid_text(id.value);
    let name = t + "."@ + downstream::extension_of(codec);
    match codec {
        StreamCodec::Mp3 => {
            assert(name.skip(name.len() - 4) =~= ".mp3"@);
        },
        StreamCodec::Aac => {
            assert(name.skip(name.len() - 4) =~= ".aac"@);
        },
        StreamCodec::Wav => {
            assert(name.skip(name.len() - 4) =~= ".wav"@);
        },
    }
    assert(name.take(name.len() - 4) =~= t);
    ids::session_id_text_is_read_back(id.value);
    let d = text::decimal(generation as nat);
    let q = "gen"@ + "="@ + d;
    text::lemma_decimal_digits(generation as nat);
    text::lemma_find_char(q, '&', 0);
    assert forall|i: int| 0 <= i < q.len() implies q[i] != '&' by {
        if i >= 4 {
            assert(q[i] == d[i - 4]);
            assert(text::is_digit(d[i - 4]));
        }
    }
    assert(pair_end(q) == q.len());
    assert(q.take(pair_end(q)) =~= q);
    text::lemma_find_char_at(q, '=', 0, 3);
    assert(q.take(3) =~= "gen"@);
    assert(q.skip(4) =~= d);
    assert(text::is_digit(d[0]));
    assert(text::unsigned_digits(d) == d);
}

// ---------------------------------------------------------------------------
// Laws
// ---------------------------------------------------------------------------
/// The pairs of a query are looked at one by one: one that is not about the
/// attempt is passed over, and the first one that is decides.
pub proof fn the_first_attempt_named_counts(
    pair: Seq<char>,
    rest: Seq<char>,
    n: u64,
)
    requires
        !pair.contains('&'),
    ensures
        !("gen="@.is_prefix_of(pair)) ==> query_generation(pair + seq!['&'] + rest)
            == query_generation(rest) && query_generation(pair) == Ok::<Option<nat>, Refusal>(None),
        pair == "gen="@ + text::decimal(n as nat) ==> query_generation(pair + seq!['&'] + rest)
            == Ok::<Option<nat>, Refusal>(Some(n as nat)),
        "gen="@.is_prefix_of(pair) && text::parse_unsigned(pair.skip(4), u64::MAX as nat) is None
            ==> query_generation(pair + seq!['&'] + rest) == Err::<Option<nat>, Refusal>(
            Refusal::BadRequest,
        ),
{
    reveal_strlit("gen=");
    reveal_strlit("gen");
    let q = pair + seq!['&'] + rest;
    let end = pair.len() as int;
    assert(q[end] == '&');
    assert forall|j: int| 0 <= j < end implies q[j] != '&' by {
        assert(pair.contains(pair[j]));
    }
    text::lemma_find_char_at(q, '&', 0, end);
    assert(q.take(end) =~= pair);
    assert(q.skip(end + 1) =~= rest);
    text::lemma_find_char(pair, '&', 0);
    assert(pair_end(pair) == pair.len()) by {
        match text::find_char_from(pair, '&', 0) {
            Some(i) => {
                assert(pair.contains(pair[i]));
            },
            None => {},
        }
    }
    assert(pair.take(pair.len() as int) =~= pair);
    text::lemma_find_char(pair, '=', 0);
    if "gen="@.is_prefix_of(pair) {
        assert(pair.take(4) == "gen="@);
        assert(pair[0] == pair.take(4)[0] && pair[1] == pair.take(4)[1] && pair[2]
            == pair.take(4)[2] && pair[3] == pair.take(4)[3]);
        text::lemma_find_char_at(pair, '=', 0, 3);
        assert(pair.take(3) =~= "gen"@);
    } else {
        assert(pair_generation(pair) is None) by {
            match text::find_char_from(pair, '=', 0) {
                Some(i) => {
                    if pair.take(i) == "gen"@ {
                        assert(pair.take(i).len() == 3);
                        assert(i == 3);
                        assert(pair.take(4) =~= "gen="@) by {
                            assert forall|k: int| 0 <= k < 4 implies pair.take(4)[k] == "gen="@[k] by {
                                if k < 3 {
                                    assert(pair[k] == pair.take(3)[k]);
                                }
                            }
                        }
                        assert("gen="@.is_prefix_of(pair));
                    }
                },
                None => {},
            }
        }
    }
    if pair == "gen="@ + text::decimal(n as nat) {
        let d = text::decimal(n as nat);
        text::lemma_decimal_digits(n as nat);
        assert(pair.take(4) =~= "gen="@);
        assert("gen="@.is_prefix_of(pair));
        assert(pair.skip(4) =~= d);
        assert(text::is_digit(d[0]));
        assert(text::unsigned_digits(d) == d);
    }
}

/// A stream is handed out only where the name is that of a registered session
/// and, if an attempt is named, that is the stream's own. An unreadable name or
/// number is a bad request, and all else is not found.
pub proof fn streams_are_handed_out_by_name<H>(
    registry: &StreamRegistry<H>,
    name: &str,
    query: Option<&str>,
    r: Result<&RegisteredStream<H>, Refusal>,
    id: SessionId,
)
    requires
        call_ensures(stream_session::<H>, (registry, name, query), r),
        ids::uuid_value(stem(name@)) == Some(id.value as nat),
    ensures
        r matches Ok(stream) ==> {
            &&& registry@.dom().contains(id)
            &&& *stream == registry@[id]
            &&& query is Some ==> (query_generation(query->0@) matches Ok(asked) && (asked
                matches Some(n) ==> n == stream.session.generation))
        },
        !registry@.dom().contains(id) ==> (r matches Err(Refusal::NotFound)),
        registry@.dom().contains(id) && query is None ==> r is Ok,
        registry@.dom().contains(id) && query is Some && query_generation(query->0@) is Err ==> (
        r matches Err(Refusal::BadRequest)),
        !(r matches Err(Refusal::ServiceUnavailable)),
{
    if let Some(q) = query {
        lemma_only_bad_requests(q@);
    }
}

proof fn lemma_only_bad_requests(query: Seq<char>)
    ensures
        query_generation(query) matches Err(refusal) ==> refusal == Refusal::BadRequest,
    decreases query.len(),
{
    let end = pair_end(query);
    if pair_generation(query.take(end)) is None && 0 <= end < query.len() {
        lemma_only_bad_requests(query.skip(end + 1));
    }
}

/// The name of a stream may end in one of three extensions, which are left out;
/// what is left has to be an identifier.
pub proof fn extensions_are_left_out(
    name: &str,
    bare: Seq<char>,
    r: Result<SessionId, Refusal>,
)
    requires
        call_ensures(requested_session, (name,), r),
        name@ == bare + ".mp3"@ || name@ == bare + ".wav"@ || name@ == bare + ".aac"@,
    ensures
        ids::uuid_value(bare) matches Some(v) ==> (r matches Ok(id) && id.value == v),
        ids::uuid_value(bare) is None ==> (r matches Err(Refusal::BadRequest)),
{
    reveal_strlit(".mp3");
    reveal_strlit(".wav");
    reveal_strlit(".aac");
    let end = name@.skip(name@.len() - 4);
    assert(end =~= ".mp3"@ || end =~= ".wav"@ || end =~= ".aac"@);
    assert(name@.take(name@.len() - 4) =~= bare);
}

/// Refusals have the codes of HTTP.
pub proof fn refusals_have_their_codes(refusal: &Refusal, r: u16)
    requires
        call_ensures(Refusal::code, (refusal,), r),
    ensures
        r == 400 <==> refusal is BadRequest,
        r == 404 <==> refusal is NotFound,
        r == 503 <==> refusal is ServiceUnavailable,
{
}

/// The attempt that a caller is told is the one that the query names first; a
/// query that names none, and no query, ask for none.
pub proof fn callers_are_told_the_attempt(
    query: &str,
    rest: &str,
    pair: Seq<char>,
    n: u64,
    named: Result<Option<u64>, Refusal>,
    of_rest: Result<Option<u64>, Refusal>,
    of_none: Result<Option<u64>, Refusal>,
)
    requires
        call_ensures(stream_generation, (Some(query),), named),
        call_ensures(stream_generation, (Some(rest),), of_rest),
        call_ensures(stream_generation, (None::<&str>,), of_none),
        query@ == pair + seq!['&'] + rest@,
        !pair.contains('&'),
    ensures
        pair == "gen="@ + text::decimal(n as nat) ==> named == Ok::<Option<u64>, Refusal>(Some(n)),
        !("gen="@.is_prefix_of(pair)) ==> named == of_rest,
        of_none == Ok::<Option<u64>, Refusal>(None),
{
    the_first_attempt_named_counts(pair, rest@, n);
}

/// Every codec has its media type.
pub proof fn codecs_have_their_types(codec: StreamCodec, r: &str)
    requires
        call_ensures(content_type, (codec,), r),
    ensures
        codec == StreamCodec::Mp3 ==> r@ == "audio/mpeg"@,
        codec == StreamCodec::Wav ==> r@ == "audio/wav"@,
        codec == StreamCodec::Aac ==> r@ == "audio/aac"@,
{
}

} // verus!
