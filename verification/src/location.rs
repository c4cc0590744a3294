//! Where an object lies: the bucket and the key of an `oss://` URL.

use vstd::prelude::*;

use crate::error::raise;
use crate::error::Error;
use crate::error::ErrorView;
use crate::error::GenericSource;
use crate::error::IoError;
use crate::error::IoErrorView;
use crate::text;

verus! {

/// What separates the parts of a key.
pub const DELIMITER: char = '/';

/// The parts of a URL that name an object.
pub struct UrlParts {
    /// The scheme, in lower case.
    pub scheme: String,
    /// The host, where the URL has one.
    pub host: Option<String>,
    /// The URL up to the end of its host.
    pub origin: String,
    /// The whole URL, normalized.
    pub normalized: String,
}

/// The parts of a URL in the order scheme, host, origin, normalized URL, or the
/// reason why a text is no URL.
pub uninterp spec fn url_parse(text: Seq<char>) -> Result<
    (Seq<char>, Option<Seq<char>>, Seq<char>, Seq<char>),
    Seq<char>,
>;

impl UrlParts {
    /// The parts in the order scheme, host, origin, normalized URL.
    pub open spec fn parts(self) -> (Seq<char>, Option<Seq<char>>, Seq<char>, Seq<char>) {
        (self.scheme@, text::option_view(self.host), self.origin@, self.normalized@)
    }
}

/// Whether every character of `bucket` is an ASCII letter or digit, a `-`, a `_`
/// or a `.`, and there is at least one.
pub open spec fn plain_bucket(bucket: Seq<char>) -> bool {
    &&& bucket.len() > 0
    &&& forall|i: int| 0 <= i < bucket.len() ==> plain_bucket_char(#[trigger] bucket[i])
}

/// A character of which a bucket name is made.
pub open spec fn plain_bucket_char(c: char) -> bool {
    crate::config::ascii_alphanumeric(c) || c == '-' || c == '_' || c == '.'
}

/// The URL of `bucket`, followed by `rest`.
pub open spec fn bucket_url(bucket: Seq<char>, rest: Seq<char>) -> Seq<char> {
    "oss://"@ + bucket + rest
}

/// The length up to which a URL is short enough to be parsed whatever it holds.
pub const URL_LENGTH_LIMIT: u64 = 0x1000_0000;

/// The result of parsing a URL, by its view.
pub open spec fn parse_view(result: Result<UrlParts, String>) -> Result<
    (Seq<char>, Option<Seq<char>>, Seq<char>, Seq<char>),
    Seq<char>,
> {
    match result {
        Ok(parts) => Ok(parts.parts()),
        Err(reason) => Err(reason@),
    }
}

/// Whether `url` is `oss://`, the plain name `bucket` and then nothing or a path,
/// and not too long.
pub open spec fn plain_url(url: Seq<char>, bucket: Seq<char>, rest: Seq<char>) -> bool {
    &&& url == bucket_url(bucket, rest)
    &&& plain_bucket(bucket)
    &&& rest.len() == 0 || rest[0] == '/'
    &&& url.len() <= URL_LENGTH_LIMIT
}

/// Whether `result` has the scheme `oss` and the host `bucket`, both as they stand
/// at the start of the URL.
pub open spec fn names_bucket(result: Result<UrlParts, String>, bucket: Seq<char>) -> bool {
    &&& result matches Ok(parts)
    &&& parts.scheme@ == "oss"@
    &&& text::option_view(parts.host) == Some(bucket)
    &&& parts.origin@ == bucket_url(bucket, Seq::empty())
}

/// Parses `text` by `url::Url::parse`, and reads the scheme, the host, the text up
/// to the end of the host and the whole text of the URL, or the message of the
/// parse error. `url_parse` names the result. Of a URL that is `oss://`, a plain
/// bucket name, and then nothing or a path, and that is not too long, the parser
/// keeps the scheme and the host as they are.
#[verifier::external_body]
pub(crate) fn parse_url(text: &str) -> (result: Result<UrlParts, String>)
    ensures
        parse_view(result) == url_parse(text@),
        forall|bucket: Seq<char>, rest: Seq<char>| #[trigger]
            plain_url(text@, bucket, rest) ==> names_bucket(result, bucket),
{
    match url::Url::parse(text) {
        Ok(parsed) => Ok(UrlParts {
            scheme: parsed.scheme().to_string(),
            host: parsed.host_str().map(|host| host.to_string()),
            origin: parsed[..url::Position::AfterHost].to_string(),
            normalized: parsed.to_string(),
        }),
        Err(reason) => Err(reason.to_string()),
    }
}

/// Whether the end of the host, at the length of `origin` in bytes, falls between
/// two characters of `url`.
pub open spec fn cut_fits(url: Seq<char>, origin: Seq<char>) -> bool {
    vstd::utf8::is_char_boundary(
        vstd::utf8::encode_utf8(url),
        vstd::utf8::encode_utf8(origin).len() as int,
    )
}

/// The key of `url`: what follows the length of `origin` in bytes, without the
/// delimiters at its start.
pub open spec fn key_after(url: Seq<char>, origin: Seq<char>) -> Seq<char> {
    let bytes = vstd::utf8::encode_utf8(url);
    let cut = vstd::utf8::encode_utf8(origin).len() as int;
    text::trim_start(vstd::utf8::decode_utf8(bytes.subrange(cut, bytes.len() as int)), DELIMITER)
}

/// Whether the host of `parsed` is where `url` can be cut, if `parsed` is a URL
/// that is cut.
pub open spec fn can_cut(
    url: Seq<char>,
    parsed: Result<(Seq<char>, Option<Seq<char>>, Seq<char>, Seq<char>), Seq<char>>,
) -> bool {
    match parsed {
        Ok((scheme, Some(host), origin, normalized)) => scheme == "oss"@ ==> cut_fits(url, origin),
        _ => true,
    }
}

/// The bucket and the key of `url`, whose parts are `parsed`, or why it has none.
pub open spec fn location_of(
    url: Seq<char>,
    parsed: Result<(Seq<char>, Option<Seq<char>>, Seq<char>, Seq<char>), Seq<char>>,
    allow_empty_key: bool,
) -> Result<(Seq<char>, Seq<char>), IoErrorView> {
    match parsed {
        Err(reason) => Err(IoErrorView::InvalidUrl { path: url, source: reason }),
        Ok((scheme, host, origin, normalized)) => if scheme != "oss"@ {
            Err(ErrorView::UnsupportedScheme { scheme, path: url }.seen_by_callers())
        } else {
            match host {
                None => Err(IoErrorView::InvalidUrl { path: normalized, source: "empty host"@ }),
                Some(bucket) => {
                    let key = key_after(url, origin);
                    if !allow_empty_key && key.len() == 0 {
                        Err(IoErrorView::NotAFile { path: normalized })
                    } else {
                        Ok((bucket, key))
                    }
                },
            }
        },
    }
}

/// A location or an error, by its view.
pub open spec fn location_view(location: Result<(String, String), IoError>) -> Result<
    (Seq<char>, Seq<char>),
    IoErrorView,
> {
    match location {
        Ok((bucket, key)) => Ok((bucket@, key@)),
        Err(error) => Err(error@),
    }
}

/// The encoding of two texts one after the other can be cut between them.
pub proof fn lemma_encode_concat(a: Seq<char>, b: Seq<char>)
    ensures
        vstd::utf8::encode_utf8(a + b) == vstd::utf8::encode_utf8(a) + vstd::utf8::encode_utf8(b),
        cut_fits(a + b, a),
    decreases a.len(),
{
    let bytes = vstd::utf8::encode_utf8(a + b);
    vstd::utf8::encode_utf8_valid_utf8(a + b);
    if a.len() == 0 {
        assert(a + b =~= b);
        assert(bytes =~= vstd::utf8::encode_utf8(a) + vstd::utf8::encode_utf8(b));
    } else {
        let rest = a.drop_first();
        assert((a + b).drop_first() =~= rest + b);
        lemma_encode_concat(rest, b);
        let head = vstd::utf8::encode_scalar(a[0] as u32);
        assert(bytes =~= head + (vstd::utf8::encode_utf8(rest) + vstd::utf8::encode_utf8(b)));
        assert(bytes =~= vstd::utf8::encode_utf8(a) + vstd::utf8::encode_utf8(b));
        vstd::utf8::encode_utf8_first_scalar(a + b);
        assert(vstd::utf8::pop_first_scalar(bytes) =~= vstd::utf8::encode_utf8(rest + b));
    }
}

/// Where a URL is its text up to the end of the host, followed by `rest`, it can
/// be cut there, and its key is `rest` without the delimiters at its start.
pub proof fn law_key_follows_host(origin: Seq<char>, rest: Seq<char>)
    ensures
        cut_fits(origin + rest, origin),
        key_after(origin + rest, origin) == text::trim_start(rest, DELIMITER),
{
    lemma_encode_concat(origin, rest);
    let bytes = vstd::utf8::encode_utf8(origin + rest);
    let cut = vstd::utf8::encode_utf8(origin).len() as int;
    assert(bytes.subrange(cut, bytes.len() as int) =~= vstd::utf8::encode_utf8(rest));
    vstd::utf8::encode_utf8_decode_utf8(rest);
}

/// The key of a location never starts with a delimiter.
pub proof fn law_key_has_no_leading_delimiter(
    url: Seq<char>,
    parsed: Result<(Seq<char>, Option<Seq<char>>, Seq<char>, Seq<char>), Seq<char>>,
    allow_empty_key: bool,
)
    ensures
        location_of(url, parsed, allow_empty_key) matches Ok((bucket, key)) ==> {
            &&& key.len() > 0 ==> key[0] != DELIMITER
            &&& key.len() == 0 ==> allow_empty_key
        },
{
    if let Ok((scheme, Some(bucket), origin, normalized)) = parsed {
        let bytes = vstd::utf8::encode_utf8(url);
        let cut = vstd::utf8::encode_utf8(origin).len() as int;
        text::lemma_trim_start(
            vstd::utf8::decode_utf8(bytes.subrange(cut, bytes.len() as int)),
            DELIMITER,
        );
    }
}

/// The bucket and the key of `url`, given what its parts are.
pub fn locate(url: &str, parsed: Result<UrlParts, String>, allow_empty_key: bool) -> (location:
    Result<(String, String), IoError>)
    requires
        can_cut(url@, parse_view(parsed)),
    ensures
        location_view(location) == location_of(url@, parse_view(parsed), allow_empty_key),
{
    let parts = match parsed {
        Ok(parts) => parts,
        Err(source) => {
            return Err(raise(Error::InvalidUrl { path: url.to_owned(), source }));
        },
    };
    if !text::same_text(parts.scheme.as_str(), "oss") {
        return Err(
            raise(Error::UnsupportedScheme { scheme: parts.scheme, path: url.to_owned() }),
        );
    }
    let bucket = match parts.host {
        Some(host) => host,
        None => {
            return Err(
                raise(
                    Error::InvalidUrl { path: parts.normalized, source: "empty host".to_owned() },
                ),
            );
        },
    };
    let bucket_scheme_len: usize = parts.origin.as_str().as_bytes().len();
    let after = url.split_at(bucket_scheme_len).1;
    let key = text::trimmed_start(after, DELIMITER);
    proof {
        vstd::utf8::encode_utf8_decode_utf8(after@);
    }
    if !allow_empty_key && key.as_str().is_empty() {
        return Err(IoError::NotAFile { path: parts.normalized });
    }
    Ok((bucket, key))
}

/// The URL of the object `key` in `bucket`.
pub open spec fn object_url(bucket: Seq<char>, key: Seq<char>) -> Seq<char> {
    "oss://"@ + bucket + "/"@ + key
}

/// The URL of the object `key` in `bucket`.
pub fn object_path(bucket: &str, key: &str) -> (path: String)
    ensures
        path@ == object_url(bucket@, key@),
{
    text::join4("oss://", bucket, "/", key)
}

/// The URL of an object in a plain bucket names that bucket, and its path without
/// the delimiters at its start is the key.
pub proof fn law_object_url_names_object(bucket: Seq<char>, key: Seq<char>)
    requires
        plain_bucket(bucket),
        key.len() > 0 ==> key[0] != DELIMITER,
        object_url(bucket, key).len() <= URL_LENGTH_LIMIT,
    ensures
        plain_url(object_url(bucket, key), bucket, "/"@ + key),
        text::trim_start("/"@ + key, DELIMITER) == key,
{
    reveal_strlit("/");
    assert(object_url(bucket, key) =~= bucket_url(bucket, "/"@ + key));
    assert(("/"@ + key).skip(1) =~= key);
    reveal_with_fuel(text::trim_start, 2);
}

/// Whether `url` can be cut at the end of its host, whatever else it is.
pub open spec fn cuttable(url: Seq<char>) -> bool {
    ||| can_cut(url, url_parse(url))
    ||| exists|bucket: Seq<char>, rest: Seq<char>| plain_url(url, bucket, rest)
}

/// Where `parsed` is what a plain URL is parsed to, the URL can be cut, and the
/// key is its path.
pub proof fn lemma_plain_location(
    url: Seq<char>,
    bucket: Seq<char>,
    rest: Seq<char>,
    parsed: Result<UrlParts, String>,
)
    requires
        plain_url(url, bucket, rest),
        names_bucket(parsed, bucket),
    ensures
        can_cut(url, parse_view(parsed)),
        key_after(url, parsed->Ok_0.origin@) == text::trim_start(rest, DELIMITER),
{
    let origin = bucket_url(bucket, Seq::empty());
    assert(url =~= origin + rest);
    law_key_follows_host(origin, rest);
}

/// What is parsed from a plain URL can be cut and gives the bucket and the path.
pub proof fn lemma_plain_urls(url: Seq<char>, parsed: Result<UrlParts, String>)
    requires
        forall|bucket: Seq<char>, rest: Seq<char>| #[trigger]
            plain_url(url, bucket, rest) ==> names_bucket(parsed, bucket),
    ensures
        forall|bucket: Seq<char>, rest: Seq<char>| #[trigger]
            plain_url(url, bucket, rest) ==> {
                &&& names_bucket(parsed, bucket)
                &&& can_cut(url, parse_view(parsed))
                &&& key_after(url, parsed->Ok_0.origin@) == text::trim_start(
                    rest,
                    DELIMITER,
                )
            },
{
    assert forall|bucket: Seq<char>, rest: Seq<char>| #[trigger]
        plain_url(url, bucket, rest) implies {
        &&& names_bucket(parsed, bucket)
        &&& can_cut(url, parse_view(parsed))
        &&& key_after(url, parsed->Ok_0.origin@) == text::trim_start(
            rest,
            DELIMITER,
        )
    } by {
        lemma_plain_location(url, bucket, rest, parsed);
    }
}

/// Whether the host of `parsed` is where `url` can be cut.
pub fn is_cuttable(url: &str, parsed: &Result<UrlParts, String>) -> (yes: bool)
    ensures
        yes == can_cut(url@, parse_view(*parsed)),
{
    match parsed {
        Ok(parts) => {
            if parts.host.is_some() && text::same_text(parts.scheme.as_str(), "oss") {
                let cut: usize = parts.origin.as_str().as_bytes().len();
                url.is_char_boundary(cut)
            } else {
                true
            }
        },
        Err(_) => true,
    }
}

/// The only text that starts after a run of delimiters, and not with one, is what is left
/// of trimming them.
pub proof fn lemma_trimmed(rest: Seq<char>, n: int)
    requires
        0 <= n <= rest.len(),
        forall|i: int| 0 <= i < n ==> #[trigger] rest[i] == '/',
        n < rest.len() ==> rest[n] != '/',
    ensures
        text::trim_start(rest, DELIMITER) == rest.skip(n),
{
    text::lemma_trim_start(rest, DELIMITER);
    let m = rest.len() - text::trim_start(rest, DELIMITER).len();
    if m < n {
        assert(text::trim_start(rest, DELIMITER)[0] == rest[m]);
    } else if n < m {
        assert(rest[n] == DELIMITER);
    }
}

/// Of a URL that was parsed, the scheme must be `oss` and there must be a host, which is
/// the bucket. The key is what follows as many bytes as the URL has up to the end of its
/// host, without the run of delimiters at its start; it may be empty only where that is
/// allowed. `front` and `after` are the URL before and after that many bytes, and `n`
/// delimiters start `after`.
pub proof fn law_location_follows_the_parts(
    url: &str,
    parsed: Result<UrlParts, String>,
    allow_empty_key: bool,
    location: Result<(String, String), IoError>,
    front: Seq<char>,
    after: Seq<char>,
    n: int,
)
    requires
        call_ensures(locate, (url, parsed, allow_empty_key), location),
        url@ == front + after,
        parsed matches Ok(parts) ==> vstd::utf8::encode_utf8(front).len()
            == vstd::utf8::encode_utf8(parts.origin@).len(),
        0 <= n <= after.len(),
        forall|i: int| 0 <= i < n ==> #[trigger] after[i] == '/',
        n < after.len() ==> after[n] != '/',
    ensures
        match parsed {
            Err(reason) => location matches Err(IoError::InvalidUrl { path, source }) && path@
                == url@ && source@ == reason@,
            Ok(parts) => if parts.scheme@ != "oss"@ {
                location matches Err(
                    IoError::Generic {
                        store,
                        source: GenericSource::Oss(Error::UnsupportedScheme { scheme, path }),
                    },
                ) && scheme@ == parts.scheme@ && path@ == url@
            } else {
                match parts.host {
                    None => location matches Err(IoError::InvalidUrl { path, source }) && path@
                        == parts.normalized@ && source@ == "empty host"@,
                    Some(host) => if n == after.len() && !allow_empty_key {
                        location matches Err(IoError::NotAFile { path }) && path@
                            == parts.normalized@
                    } else {
                        location matches Ok((bucket, key)) && bucket@ == host@ && key@
                            == after.skip(n)
                    },
                }
            },
        },
{
    lemma_encode_concat(front, after);
    lemma_trimmed(after, n);
    let bytes = vstd::utf8::encode_utf8(url@);
    let cut = vstd::utf8::encode_utf8(front).len() as int;
    assert(bytes.subrange(cut, bytes.len() as int) =~= vstd::utf8::encode_utf8(after));
    vstd::utf8::encode_utf8_decode_utf8(after);
}

/// The URL of an object is the scheme, its bucket, a delimiter and its key.
pub proof fn law_object_path_is_the_url(bucket: &str, key: &str, path: String)
    requires
        call_ensures(object_path, (bucket, key), path),
    ensures
        path@ == "oss://"@ + bucket@ + "/"@ + key@,
        object_url(bucket@, key@) == "oss://"@ + bucket@ + "/"@ + key@,
{
}

} // verus!
