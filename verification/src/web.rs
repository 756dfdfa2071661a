//! URLs, by their serialised text.

use url::Url;
use vstd::prelude::*;

verus! {

#[verifier::external_type_specification]
#[verifier::external_body]
pub struct ExUrlParseError(url::ParseError);

/// The serialisation of what `Url::parse` makes of a text, or nothing where it
/// fails.
pub uninterp spec fn parsed_url(input: Seq<char>) -> Option<Seq<char>>;

/// The serialisation of what `Url::join` makes of a reference, seen from a base
/// that `Url::parse` reads, or nothing where either fails.
pub uninterp spec fn joined_url(base: Seq<char>, reference: Seq<char>) -> Option<Seq<char>>;

/// The serialisation of what `Url::parse` makes of a text once
/// `append_pair` has added a name and a value to its query, or nothing where
/// parsing fails.
pub uninterp spec fn url_with_pair(
    input: Seq<char>,
    name: Seq<char>,
    value: Seq<char>,
) -> Option<Seq<char>>;

/// What `Url::host_str` gives of what `Url::parse` makes of a text, or nothing
/// where parsing fails.
pub uninterp spec fn url_host(input: Seq<char>) -> Option<Option<Seq<char>>>;

/// Whether a character stands for itself in a query.
pub open spec fn plain_in_query(c: char) -> bool {
    ('0' <= c && c <= '9') || ('A' <= c && c <= 'Z') || ('a' <= c && c <= 'z') || c == '*' || c
        == '-' || c == '.' || c == '_'
}

/// Whether a text stands for itself in a query.
pub open spec fn all_plain(s: Seq<char>) -> bool {
    forall|i: int| 0 <= i < s.len() ==> plain_in_query(#[trigger] s[i])
}

/// A URL without a query and a fragment, with a pair as its query.
pub open spec fn with_query(url: Seq<char>, name: Seq<char>, value: Seq<char>) -> Seq<char> {
    url + "?"@ + name + "="@ + value
}

/// `Url::parse`, which fails or gives a URL, here by its serialisation.
#[verifier::external_body]
pub(crate) fn parse_url(input: &str) -> (r: Result<String, url::ParseError>)
    ensures
        match r {
            Ok(url) => parsed_url(input@) == Some(url@),
            Err(_) => parsed_url(input@) is None,
        },
{
    Ok(Url::parse(input)?.into())
}

/// `Url::host_str`, on a URL given by its text. It fails where the text is no
/// URL; a URL may have no host.
#[verifier::external_body]
pub(crate) fn parse_url_host(input: &str) -> (r: Result<Option<String>, url::ParseError>)
    ensures
        match r {
            Ok(Some(host)) => url_host(input@) == Some(Some(host@)) && parsed_url(input@) is Some,
            Ok(None) => url_host(input@) == Some(None::<Seq<char>>) && parsed_url(input@) is Some,
            Err(_) => url_host(input@) is None && parsed_url(input@) is None,
        },
{
    Ok(Url::parse(input)?.host_str().map(str::to_owned))
}

/// `Url::join`, on a base given by its text. It fails or gives a URL, here by
/// its serialisation.
#[verifier::external_body]
pub(crate) fn join_url(base: &str, reference: &str) -> (r: Result<String, url::ParseError>)
    ensures
        match r {
            Ok(url) => joined_url(base@, reference@) == Some(url@),
            Err(_) => joined_url(base@, reference@) is None,
        },
{
    Ok(Url::parse(base)?.join(reference)?.into())
}

/// `Url::query_pairs_mut` and `append_pair`, on a URL given by its text. It
/// fails where the text is no URL. A name and a value of plain characters
/// become the query of a URL that has neither a query nor a fragment. The
/// query and the fragment begin at 32-bit positions, so none of the texts may be
/// over-long.
#[verifier::external_body]
pub(crate) fn parse_url_with_pair(input: &str, name: &str, value: &str) -> (r: Result<
    String,
    url::ParseError,
>)
    requires
        input@.len() <= 0x1_0000,
        name@.len() <= 0x1_0000,
        value@.len() <= 0x1_0000,
    ensures
        match r {
            Ok(url) => {
                &&& url_with_pair(input@, name@, value@) == Some(url@)
                &&& parsed_url(input@) is Some
                &&& all_plain(name@) && all_plain(value@) && !parsed_url(input@)->0.contains('?')
                    && !parsed_url(input@)->0.contains('#') ==> url@ == with_query(
                    parsed_url(input@)->0,
                    name@,
                    value@,
                )
            },
            Err(_) => parsed_url(input@) is None && url_with_pair(input@, name@, value@) is None,
        },
{
    let mut url = Url::parse(input)?;
    url.query_pairs_mut().append_pair(name, value);
    Ok(url.into())
}

} // verus!
