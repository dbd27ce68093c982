//! Validation and normalization of YouTube URLs into video ids.
use vstd::prelude::*;

use crate::errors::{string_result, AppError, AppResult, ErrorView};
use crate::text::{
    ascii_lower_seq, ascii_lowercase, chars_of, is_space, lemma_strip_keeps, str_eq, starts_with,
    strip, strip_end, strip_start, strip_str, trim, trim_str, Strip,
};

verus! {

/// What the video-id logic reads of a parsed URL: its host (if it has one),
/// its path and its decoded query pairs, in order.
#[derive(Debug, Clone)]
pub struct ParsedUrl {
    pub host: Option<String>,
    pub path: String,
    pub query: Vec<(String, String)>,
}

/// The value of a [`ParsedUrl`]: host, path and query pairs as character
/// sequences.
pub type UrlParts = (Option<Seq<char>>, Seq<char>, Seq<(Seq<char>, Seq<char>)>);

impl View for ParsedUrl {
    type V = UrlParts;

    open spec fn view(&self) -> UrlParts {
        (
            match self.host {
                Some(h) => Some(h@),
                None => None,
            },
            self.path@,
            self.query@.map_values(|p: (String, String)| (p.0@, p.1@)),
        )
    }
}

/// What `url::Url::parse` makes of a text: `None` where it refuses it, else
/// the host (`Url::host_str`), the path (`Url::path`) and the decoded query
/// pairs (`Url::query_pairs`) of the parsed URL.
pub uninterp spec fn url_parse(raw: Seq<char>) -> Option<UrlParts>;

/// Parses a URL with the `url` crate.  Trusted: `url::Url::parse`, then
/// `host_str`, `path` and `query_pairs` on the result; the contract claims
/// only that the outcome is the one the name `url_parse` gives for the text.
#[verifier::external_body]
fn parse_url(raw: &str) -> (r: Option<ParsedUrl>)
    ensures
        match r {
            Some(p) => url_parse(raw@) == Some(p@),
            None => url_parse(raw@) is None,
        },
{
    match url::Url::parse(raw) {
        Ok(url) => Some(ParsedUrl {
            host: url.host_str().map(|h| h.to_owned()),
            path: url.path().to_owned(),
            query: url.query_pairs().into_owned().collect(),
        }),
        Err(_) => None,
    }
}

/// The value of the last query pair whose key is `key`: the one that a map
/// collected from the pairs in order keeps.
pub open spec fn last_value(query: Seq<(Seq<char>, Seq<char>)>, key: Seq<char>) -> Option<
    Seq<char>,
>
    decreases query.len(),
{
    if query.len() == 0 {
        None
    } else if query.last().0 == key {
        Some(query.last().1)
    } else {
        last_value(query.drop_last(), key)
    }
}

/// A character that a YouTube video id may hold.
pub open spec fn is_video_id_char(c: char) -> bool {
    ||| 'a' <= c <= 'z'
    ||| 'A' <= c <= 'Z'
    ||| '0' <= c <= '9'
    ||| c == '-'
    ||| c == '_'
}

/// Every character of `s` may stand in a video id.
pub open spec fn is_video_id_text(s: Seq<char>) -> bool {
    forall|i: int| 0 <= i < s.len() ==> is_video_id_char(#[trigger] s[i])
}

/// The text that may hold a video id, by host and path: the path for
/// `youtu.be`, the `v` query value for `youtube.com/watch`, and what follows
/// `shorts/` or `embed/` in other `youtube.com` paths.
pub open spec fn id_candidate(host: Seq<char>, path: Seq<char>, query: Seq<(Seq<char>, Seq<char>)>) -> Option<Seq<char>> {
    let shorts = "shorts/"@;
    let embed = "embed/"@;
    if host == "youtu.be"@ || host == "www.youtu.be"@ {
        Some(path)
    } else if host == "youtube.com"@ || host == "www.youtube.com"@ || host == "m.youtube.com"@ {
        if path == "watch"@ {
            last_value(query, "v"@)
        } else if shorts.len() <= path.len() && path.take(shorts.len() as int) == shorts {
            Some(path.skip(shorts.len() as int))
        } else if embed.len() <= path.len() && path.take(embed.len() as int) == embed {
            Some(path.skip(embed.len() as int))
        } else {
            None
        }
    } else {
        None
    }
}

/// The error for a URL that is not a YouTube video URL.
pub open spec fn invalid_url() -> ErrorView {
    ErrorView::BadRequest("Please provide a valid YouTube URL"@)
}

/// The error for a video id with a character that ids do not hold.
pub open spec fn invalid_video_id() -> ErrorView {
    ErrorView::BadRequest("Unable to extract a valid YouTube video id"@)
}

/// The video id that a parsed URL names, or the error for it.
pub open spec fn video_id_of(parts: UrlParts) -> Result<Seq<char>, ErrorView> {
    match parts.0 {
        None => Err(invalid_url()),
        Some(host) => {
            let path = strip(parts.1, Strip::Slash);
            match id_candidate(ascii_lower_seq(host), path, parts.2) {
                None => Err(invalid_url()),
                Some(candidate) => {
                    let id = trim(candidate);
                    if id.len() == 0 {
                        Err(invalid_url())
                    } else if !is_video_id_text(id) {
                        Err(invalid_video_id())
                    } else {
                        Ok(id)
                    }
                }
            }
        }
    }
}

/// The video id that a raw URL text names, or the error for it.
pub open spec fn extract_video_id_spec(raw: Seq<char>) -> Result<Seq<char>, ErrorView> {
    match url_parse(trim(raw)) {
        None => Err(invalid_url()),
        Some(parts) => video_id_of(parts),
    }
}

fn bad_request(message: &str) -> (e: AppError)
    ensures
        e@ == ErrorView::BadRequest(message@),
{
    AppError::BadRequest(message.to_owned())
}

fn is_video_id_char_exec(c: char) -> (r: bool)
    ensures
        r == is_video_id_char(c),
{
    ('a' <= c && c <= 'z') || ('A' <= c && c <= 'Z') || ('0' <= c && c <= '9') || c == '-'
        || c == '_'
}

fn all_video_id_chars(s: &str) -> (r: bool)
    ensures
        r == is_video_id_text(s@),
{
    let chars = chars_of(s);
    let n = chars.len();
    for i in 0..n
        invariant
            n == s@.len(),
            chars@ == s@,
            forall|k: int| 0 <= k < i ==> is_video_id_char(#[trigger] s@[k]),
    {
        if !is_video_id_char_exec(chars[i]) {
            return false;
        }
    }
    true
}

/// The value of the last pair in `query` whose key is `key`.
pub fn last_query_value(query: &Vec<(String, String)>, key: &str) -> (r: Option<String>)
    ensures
        match r {
            Some(v) => last_value(query@.map_values(|p: (String, String)| (p.0@, p.1@)), key@)
                == Some(v@),
            None => last_value(query@.map_values(|p: (String, String)| (p.0@, p.1@)), key@)
                is None,
        },
{
    let ghost pairs = query@.map_values(|p: (String, String)| (p.0@, p.1@));
    let mut found: Option<String> = None;
    let n = query.len();
    for i in 0..n
        invariant
            n == query@.len(),
            pairs == query@.map_values(|p: (String, String)| (p.0@, p.1@)),
            match found {
                Some(v) => last_value(pairs.take(i as int), key@) == Some(v@),
                None => last_value(pairs.take(i as int), key@) is None,
            },
    {
        assert(pairs.take(i + 1).drop_last() =~= pairs.take(i as int));
        if str_eq(query[i].0.as_str(), key) {
            found = Some(query[i].1.clone());
        }
    }
    assert(pairs.take(n as int) =~= pairs);
    found
}

/// The text that may hold the video id of a URL with this (lower-cased)
/// host, (slash-stripped) path and query pairs.
fn candidate_text(host: &str, path: &str, query: &Vec<(String, String)>) -> (r: Option<String>)
    ensures
        match r {
            Some(c) => id_candidate(
                host@,
                path@,
                query@.map_values(|p: (String, String)| (p.0@, p.1@)),
            ) == Some(c@),
            None => id_candidate(
                host@,
                path@,
                query@.map_values(|p: (String, String)| (p.0@, p.1@)),
            ) is None,
        },
{
    if str_eq(host, "youtu.be") || str_eq(host, "www.youtu.be") {
        Some(path.to_owned())
    } else if str_eq(host, "youtube.com") || str_eq(host, "www.youtube.com") || str_eq(
        host,
        "m.youtube.com",
    ) {
        if str_eq(path, "watch") {
            last_query_value(query, "v")
        } else if starts_with(path, "shorts/") {
            let k = "shorts/".unicode_len();
            let n = path.unicode_len();
            Some(path.substring_char(k, n).to_owned())
        } else if starts_with(path, "embed/") {
            let k = "embed/".unicode_len();
            let n = path.unicode_len();
            Some(path.substring_char(k, n).to_owned())
        } else {
            None
        }
    } else {
        None
    }
}

/// The video id that a parsed URL names.  Succeeds exactly where the host
/// is a YouTube host, the path (or the `v` query value of a `watch` URL)
/// holds a candidate that is not blank after trimming, and that candidate
/// holds only ASCII letters, digits, `-` and `_`; the id is the trimmed
/// candidate.
pub fn video_id_from_url(url: &ParsedUrl) -> (r: AppResult<String>)
    ensures
        string_result(r) == video_id_of(url@),
        r matches Ok(id) ==> id@.len() > 0 && is_video_id_text(id@),
{
    let host = match &url.host {
        Some(h) => ascii_lowercase(h.as_str()),
        None => {
            return Err(bad_request("Please provide a valid YouTube URL"));
        },
    };
    let path = strip_str(url.path.as_str(), Strip::Slash);
    let candidate = candidate_text(host.as_str(), path, &url.query);
    let id = match &candidate {
        Some(c) => trim_str(c.as_str()),
        None => {
            return Err(bad_request("Please provide a valid YouTube URL"));
        },
    };
    if id.unicode_len() == 0 {
        return Err(bad_request("Please provide a valid YouTube URL"));
    }
    if !all_video_id_chars(id) {
        return Err(bad_request("Unable to extract a valid YouTube video id"));
    }
    Ok(id.to_owned())
}

/// Extracts the video id from a YouTube URL: the text is trimmed, parsed as
/// a URL, and the id read from it as [`video_id_from_url`] states.  A text
/// that does not parse as a URL is a bad request.
pub fn extract_video_id(raw_url: &str) -> (r: AppResult<String>)
    ensures
        string_result(r) == extract_video_id_spec(raw_url@),
        r matches Ok(id) ==> id@.len() > 0 && is_video_id_text(id@),
{
    match parse_url(trim_str(raw_url)) {
        Some(url) => video_id_from_url(&url),
        None => Err(bad_request("Please provide a valid YouTube URL")),
    }
}


/// An id has no slash and no whitespace at either end.
proof fn lemma_id_ends(id: Seq<char>)
    requires
        id.len() > 0,
        is_video_id_text(id),
    ensures
        !is_space(id[0]) && !is_space(id.last()),
        id[0] != '/' && id.last() != '/',
        trim(id) == id,
{
    assert(is_video_id_char(id[0]));
    assert(is_video_id_char(id[id.len() - 1]));
    lemma_strip_keeps(id, Strip::Whitespace);
}

/// A path of one slash, then `rest` (which starts and ends with no slash),
/// strips to `rest`.
proof fn lemma_strip_leading_slash(rest: Seq<char>)
    requires
        rest.len() > 0,
        rest[0] != '/',
        rest.last() != '/',
    ensures
        strip(seq!['/'] + rest, Strip::Slash) == rest,
{
    let p = seq!['/'] + rest;
    assert(p.drop_first() =~= rest);
    assert(strip_start(rest, Strip::Slash) == rest);
    assert(strip_start(p, Strip::Slash) == rest);
    assert(strip_end(rest, Strip::Slash) == rest);
}

/// The standard URL forms of a valid video id give that id: the path
/// `/<id>` on `youtu.be` and `www.youtu.be`, and on `youtube.com`,
/// `www.youtube.com` and `m.youtube.com` (hosts in any ASCII case) the
/// paths `/shorts/<id>` and `/embed/<id>`, and `/watch` whose last `v`
/// query value is the id.
pub proof fn standard_forms_give_their_id(
    id: Seq<char>,
    host: Seq<char>,
    query: Seq<(Seq<char>, Seq<char>)>,
)
    requires
        id.len() > 0,
        is_video_id_text(id),
    ensures
        (ascii_lower_seq(host) == "youtu.be"@ || ascii_lower_seq(host) == "www.youtu.be"@)
            ==> video_id_of((Some(host), "/"@ + id, query)) == Ok::<Seq<char>, ErrorView>(id),
        (ascii_lower_seq(host) == "youtube.com"@ || ascii_lower_seq(host) == "www.youtube.com"@
            || ascii_lower_seq(host) == "m.youtube.com"@) ==> {
            &&& video_id_of((Some(host), "/shorts/"@ + id, query)) == Ok::<Seq<char>, ErrorView>(
                id,
            )
            &&& video_id_of((Some(host), "/embed/"@ + id, query)) == Ok::<Seq<char>, ErrorView>(
                id,
            )
            &&& last_value(query, "v"@) == Some(id) ==> video_id_of((Some(host), "/watch"@, query))
                == Ok::<Seq<char>, ErrorView>(id)
        },
{
    reveal_strlit("youtu.be");
    reveal_strlit("www.youtu.be");
    reveal_strlit("youtube.com");
    reveal_strlit("www.youtube.com");
    reveal_strlit("m.youtube.com");
    reveal_strlit("/");
    reveal_strlit("/shorts/");
    reveal_strlit("shorts/");
    reveal_strlit("/embed/");
    reveal_strlit("embed/");
    reveal_strlit("/watch");
    reveal_strlit("watch");
    lemma_id_ends(id);
    let lower = ascii_lower_seq(host);
    // youtu.be
    assert("/"@ + id =~= seq!['/'] + id);
    lemma_strip_leading_slash(id);
    // shorts
    let shorts = "shorts/"@ + id;
    assert("/shorts/"@ + id =~= seq!['/'] + shorts);
    assert(shorts.last() == id.last());
    lemma_strip_leading_slash(shorts);
    assert(shorts.take(7) =~= "shorts/"@);
    assert(shorts.skip(7) =~= id);
    assert(shorts != "watch"@ ) by {
        assert(shorts.len() != "watch"@.len());
    }
    // embed
    let embed = "embed/"@ + id;
    assert("/embed/"@ + id =~= seq!['/'] + embed);
    assert(embed.last() == id.last());
    lemma_strip_leading_slash(embed);
    assert(embed.take(6) =~= "embed/"@);
    assert(embed.skip(6) =~= id);
    assert(embed != "watch"@) by {
        if embed.len() == 5 {
            assert(embed[0] != "watch"@[0]);
        }
    }
    assert(!(7 <= embed.len() && embed.take(7) == "shorts/"@)) by {
        if 7 <= embed.len() && embed.take(7) == "shorts/"@ {
            assert(embed.take(7)[0] == 'e');
        }
    }
    // watch
    assert("/watch"@ =~= seq!['/'] + "watch"@);
    lemma_strip_leading_slash("watch"@);
    // hosts differ from one another
    assert("youtube.com"@ != "youtu.be"@ && "youtube.com"@ != "www.youtu.be"@) by {
        assert("youtube.com"@.len() != "youtu.be"@.len());
        assert("youtube.com"@.len() != "www.youtu.be"@.len() || "youtube.com"@[0] != "www.youtu.be"@[0]);
    }
    assert("www.youtube.com"@ != "youtu.be"@ && "www.youtube.com"@ != "www.youtu.be"@) by {
        assert("www.youtube.com"@.len() != "youtu.be"@.len());
        assert("www.youtube.com"@.len() != "www.youtu.be"@.len());
    }
    assert("m.youtube.com"@ != "youtu.be"@ && "m.youtube.com"@ != "www.youtu.be"@) by {
        assert("m.youtube.com"@.len() != "youtu.be"@.len());
        assert("m.youtube.com"@.len() != "www.youtu.be"@.len() || "m.youtube.com"@[0] != "www.youtu.be"@[0]);
    }
}

/// Only YouTube hosts name a video: a URL whose host is, in any ASCII
/// case, none of `youtu.be`, `www.youtu.be`, `youtube.com`,
/// `www.youtube.com` and `m.youtube.com` is refused as no valid YouTube
/// URL, whatever its path and query; and so is a raw text that parses to
/// such a URL.
pub proof fn other_hosts_are_refused(
    raw: Seq<char>,
    host: Seq<char>,
    path: Seq<char>,
    query: Seq<(Seq<char>, Seq<char>)>,
)
    requires
        ascii_lower_seq(host) != "youtu.be"@,
        ascii_lower_seq(host) != "www.youtu.be"@,
        ascii_lower_seq(host) != "youtube.com"@,
        ascii_lower_seq(host) != "www.youtube.com"@,
        ascii_lower_seq(host) != "m.youtube.com"@,
    ensures
        video_id_of((Some(host), path, query)) == Err::<Seq<char>, ErrorView>(
            ErrorView::BadRequest("Please provide a valid YouTube URL"@),
        ),
        url_parse(trim(raw)) == Some((Some(host), path, query)) ==> extract_video_id_spec(raw)
            == Err::<Seq<char>, ErrorView>(
            ErrorView::BadRequest("Please provide a valid YouTube URL"@),
        ),
{
}

} // verus!
