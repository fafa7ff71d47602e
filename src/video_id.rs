//! Recognising links to videos and extracting their 11-character identifier.

use vstd::prelude::*;

use crate::text::{
    contains_seq, contains_str, ends_with, find_char, first_stop, has_prefix, has_suffix,
    lemma_first_stop_bounds, lower_of, lowercase, starts_with, str_eq, until_char,
};

verus! {

/// A character allowed in a video identifier.
pub open spec fn is_id_char(c: char) -> bool {
    ('a' <= c && c <= 'z') || ('A' <= c && c <= 'Z') || ('0' <= c && c <= '9') || c == '-'
        || c == '_'
}

/// A video identifier: exactly 11 characters, each ASCII alphanumeric, '-' or '_'.
pub open spec fn valid_id(s: Seq<char>) -> bool {
    s.len() == 11 && forall|i: int| 0 <= i < s.len() ==> is_id_char(#[trigger] s[i])
}

fn id_char(c: char) -> (r: bool)
    ensures
        r == is_id_char(c),
{
    ('a' <= c && c <= 'z') || ('A' <= c && c <= 'Z') || ('0' <= c && c <= '9') || c == '-'
        || c == '_'
}

/// Whether `id` is a well-formed video identifier.
pub fn is_valid_youtube_id(id: &str) -> (r: bool)
    ensures
        r == valid_id(id@),
{
    let n = id.unicode_len();
    if n != 11 {
        return false;
    }
    let mut i: usize = 0;
    while i < n
        invariant
            n == id@.len(),
            i <= n,
            forall|k: int| 0 <= k < i ==> is_id_char(#[trigger] id@[k]),
        decreases n - i,
    {
        if !id_char(id.get_char(i)) {
            return false;
        }
        i += 1;
    }
    true
}


/// The parts of a parsed URL that the recogniser reads: the host, the path,
/// and the decoded query pairs in order.
pub struct ParsedUrl {
    pub host: Option<String>,
    pub path: String,
    pub query: Vec<(String, String)>,
}

/// Query pairs as sequences of characters.
pub open spec fn pairs_view(q: Seq<(String, String)>) -> Seq<(Seq<char>, Seq<char>)> {
    q.map_values(|p: (String, String)| (p.0@, p.1@))
}

/// What a `ParsedUrl` holds, as sequences of characters.
pub struct UrlView {
    pub host: Option<Seq<char>>,
    pub path: Seq<char>,
    pub query: Seq<(Seq<char>, Seq<char>)>,
}

impl View for ParsedUrl {
    type V = UrlView;

    open spec fn view(&self) -> UrlView {
        UrlView {
            host: match self.host {
                Some(h) => Some(h@),
                None => None,
            },
            path: self.path@,
            query: pairs_view(self.query@),
        }
    }
}

/// Relies on url::Url::parse: whether and how a string parses depends on it alone.
pub uninterp spec fn parsed_url_of(s: Seq<char>) -> Option<UrlView>;

/// Relies on url::Url::parse, read through its host_str, path and query_pairs.
#[verifier::external_body]
fn parse_url(href: &str) -> (r: Option<ParsedUrl>)
    ensures
        match r {
            Some(u) => parsed_url_of(href@) == Some(u@),
            None => parsed_url_of(href@).is_none(),
        },
{
    let u = url::Url::parse(href).ok()?;
    Some(ParsedUrl {
        host: u.host_str().map(|h| h.to_string()),
        path: u.path().to_string(),
        query: u.query_pairs().map(|(k, v)| (k.into_owned(), v.into_owned())).collect(),
    })
}

/// Whether `s` parses as an absolute URL.
pub fn parses_as_url(s: &str) -> (r: bool)
    ensures
        r == parsed_url_of(s@).is_some(),
{
    parse_url(s).is_some()
}

/// Index of the first query pair at or after `from` whose key is `key`, or the
/// number of pairs if there is none.
pub open spec fn first_key(q: Seq<(Seq<char>, Seq<char>)>, key: Seq<char>, from: int) -> int
    decreases q.len() - from,
{
    if from < 0 || from >= q.len() {
        q.len() as int
    } else if q[from].0 == key {
        from
    } else {
        first_key(q, key, from + 1)
    }
}

/// The value of the first query pair named `key`.
pub open spec fn query_value(q: Seq<(Seq<char>, Seq<char>)>, key: Seq<char>) -> Option<Seq<char>> {
    let k = first_key(q, key, 0);
    if k < q.len() {
        Some(q[k].1)
    } else {
        None
    }
}

/// `s` if it is a valid identifier.
pub open spec fn if_valid(s: Seq<char>) -> Option<Seq<char>> {
    if valid_id(s) {
        Some(s)
    } else {
        None
    }
}

/// The first segment of `path` after its leading '/'.
pub open spec fn first_segment(path: Seq<char>) -> Option<Seq<char>> {
    if path.len() > 0 && path[0] == '/' {
        Some(until_char(path.drop_first(), '/'))
    } else {
        None
    }
}

/// The rest of `path` after the first of the prefixes that it starts with.
pub open spec fn after_video_prefix(path: Seq<char>) -> Option<Seq<char>> {
    if has_prefix(path, "/shorts/"@) {
        Some(path.subrange(8, path.len() as int))
    } else if has_prefix(path, "/embed/"@) {
        Some(path.subrange(7, path.len() as int))
    } else if has_prefix(path, "/live/"@) {
        Some(path.subrange(6, path.len() as int))
    } else {
        None
    }
}

/// The identifier that a link with the (lower-cased) host, path and query
/// pairs points to, if any.
pub open spec fn video_id_of(host: Seq<char>, path: Seq<char>, query: Seq<(Seq<char>, Seq<char>)>) -> Option<Seq<char>> {
    if host == "youtu.be"@ {
        match first_segment(path) {
            Some(seg) => if_valid(seg),
            None => None,
        }
    } else if has_suffix(host, "youtube.com"@) {
        if path == "/watch"@ {
            match query_value(query, "v"@) {
                Some(v) => if_valid(v),
                None => None,
            }
        } else {
            match after_video_prefix(path) {
                Some(rest) => if_valid(until_char(rest, '/')),
                None => None,
            }
        }
    } else {
        None
    }
}

/// The identifier that the link `href` points to, if any.
pub open spec fn link_video_id(href: Seq<char>) -> Option<Seq<char>> {
    if !(contains_seq(href, "youtu.be"@) || contains_seq(href, "youtube.com"@)) {
        None
    } else {
        match parsed_url_of(href) {
            Some(u) => match u.host {
                Some(h) => video_id_of(lower_of(h), u.path, u.query),
                None => None,
            },
            None => None,
        }
    }
}

/// The characters of `s` from `from` up to the next '/'.
fn segment_from(s: &str, from: usize) -> (r: String)
    requires
        from <= s@.len(),
    ensures
        r@ == until_char(s@.subrange(from as int, s@.len() as int), '/'),
{
    let end = find_char(s, '/', from);
    proof {
        lemma_first_stop_bounds(s@, '/', from as int);
        let t = s@.subrange(from as int, s@.len() as int);
        lemma_first_stop_bounds(t, '/', 0);
        lemma_first_stop_shift(s@, '/', from as int, 0);
        assert(s@.subrange(from as int, end as int) =~= t.subrange(0, first_stop(t, '/', 0)));
    }
    s.substring_char(from, end).to_string()
}

proof fn lemma_first_stop_shift(s: Seq<char>, c: char, from: int, k: int)
    requires
        0 <= from <= s.len(),
        0 <= k <= s.len() - from,
    ensures
        first_stop(s.subrange(from, s.len() as int), c, k) + from == first_stop(s, c, from + k),
    decreases s.len() - from - k,
{
    let t = s.subrange(from, s.len() as int);
    if k < t.len() && t[k] != c {
        lemma_first_stop_shift(s, c, from, k + 1);
    }
}

/// `s` if it is a valid identifier.
fn valid_or_none(s: String) -> (r: Option<String>)
    ensures
        r.deep_view() == if_valid(s@),
{
    if is_valid_youtube_id(s.as_str()) {
        Some(s)
    } else {
        None
    }
}

/// The identifier that a link with the given lower-cased host, path and
/// decoded query pairs points to, if any.
pub fn video_id_from_parts(host: &str, path: &str, query: &Vec<(String, String)>) -> (r: Option<String>)
    ensures
        r.deep_view() == video_id_of(host@, path@, pairs_view(query@)),
{
    let ghost q = pairs_view(query@);
    proof {
        reveal_strlit("youtu.be");
        reveal_strlit("youtube.com");
        reveal_strlit("/watch");
        reveal_strlit("v");
        reveal_strlit("/shorts/");
        reveal_strlit("/embed/");
        reveal_strlit("/live/");
    }
    if str_eq(host, "youtu.be") {
        if path.unicode_len() > 0 && path.get_char(0) == '/' {
            let seg = segment_from(path, 1);
            proof {
                assert(path@.subrange(1, path@.len() as int) =~= path@.drop_first());
            }
            return valid_or_none(seg);
        }
        return None;
    }
    if !ends_with(host, "youtube.com") {
        return None;
    }
    if str_eq(path, "/watch") {
        let mut i: usize = 0;
        while i < query.len()
            invariant
                q == pairs_view(query@),
                i <= query.len(),
                path@ == "/watch"@,
                host@ != "youtu.be"@,
                has_suffix(host@, "youtube.com"@),
                first_key(q, "v"@, 0) == first_key(q, "v"@, i as int),
            decreases query.len() - i,
        {
            if str_eq(query[i].0.as_str(), "v") {
                assert(q.len() == query@.len());
                assert(q[i as int] == (query@[i as int].0@, query@[i as int].1@));
                assert(first_key(q, "v"@, i as int) == i);
                assert(query_value(q, "v"@) == Some(query@[i as int].1@));
                let v = query[i].1.clone();
                assert(v@ == query@[i as int].1@);
                return valid_or_none(v);
            }
            assert(q.len() == query@.len());
            i += 1;
        }
        assert(q.len() == query@.len());
        return None;
    }
    let start: usize = if starts_with(path, "/shorts/") {
        8
    } else if starts_with(path, "/embed/") {
        7
    } else if starts_with(path, "/live/") {
        6
    } else {
        return None;
    };
    valid_or_none(segment_from(path, start))
}

/// The 11-character identifier of the video that `href` links to, or `None`
/// when it is not a link to a video.
pub fn extract_video_id(href: &str) -> (r: Option<String>)
    ensures
        r.deep_view() == link_video_id(href@),
{
    proof {
        reveal_strlit("youtu.be");
        reveal_strlit("youtube.com");
    }
    if !(contains_str(href, "youtu.be") || contains_str(href, "youtube.com")) {
        return None;
    }
    let u = match parse_url(href) {
        Some(u) => u,
        None => return None,
    };
    let host = match &u.host {
        Some(h) => lowercase(h.as_str()),
        None => return None,
    };
    video_id_from_parts(host.as_str(), u.path.as_str(), &u.query)
}


/// Every supported link shape with a valid identifier gives exactly that
/// identifier: `youtu.be/<id>`, `.../watch?v=<id>` (first `v` pair),
/// `.../shorts/<id>`, `.../embed/<id>` and `.../live/<id>`, each of the last
/// three possibly followed by a further `/...` sub-path.
pub proof fn lemma_supported_shapes(
    id: Seq<char>,
    host: Seq<char>,
    query: Seq<(Seq<char>, Seq<char>)>,
    tail: Seq<char>,
)
    requires
        valid_id(id),
        has_suffix(host, "youtube.com"@),
        tail.len() == 0 || tail[0] == '/',
    ensures
        video_id_of("youtu.be"@, seq!['/'] + id + tail, query) == Some(id),
        query_value(query, "v"@) == Some(id) && host != "youtu.be"@ ==> video_id_of(host, "/watch"@, query) == Some(id),
        host != "youtu.be"@ ==> video_id_of(host, "/shorts/"@ + id + tail, query) == Some(id),
        host != "youtu.be"@ ==> video_id_of(host, "/embed/"@ + id + tail, query) == Some(id),
        host != "youtu.be"@ ==> video_id_of(host, "/live/"@ + id + tail, query) == Some(id),
{
    reveal_strlit("youtu.be");
    reveal_strlit("youtube.com");
    reveal_strlit("/watch");
    reveal_strlit("/shorts/");
    reveal_strlit("/embed/");
    reveal_strlit("/live/");
    lemma_segment(id, tail);
    let p1 = seq!['/'] + id + tail;
    assert(p1.drop_first() =~= id + tail);
    assert(until_char(id + tail, '/') == id);
    let ps = "/shorts/"@ + id + tail;
    assert(ps.subrange(0, 8) =~= "/shorts/"@);
    assert(ps.subrange(8, ps.len() as int) =~= id + tail);
    if host != "youtu.be"@ {
        assert(ps != "/watch"@) by {
            assert(ps.len() != "/watch"@.len());
        }
    }
    let pe = "/embed/"@ + id + tail;
    assert(pe.subrange(0, 7) =~= "/embed/"@);
    assert(pe.subrange(7, pe.len() as int) =~= id + tail);
    assert(!has_prefix(pe, "/shorts/"@)) by {
        assert(pe[1] != "/shorts/"@[1]);
        assert(pe.subrange(0, 8)[1] == pe[1]);
    }
    if host != "youtu.be"@ {
        assert(pe != "/watch"@) by {
            assert(pe.len() != "/watch"@.len());
        }
    }
    let pl = "/live/"@ + id + tail;
    assert(pl.subrange(0, 6) =~= "/live/"@);
    assert(pl.subrange(6, pl.len() as int) =~= id + tail);
    assert(!has_prefix(pl, "/shorts/"@)) by {
        assert(pl.subrange(0, 8)[1] == pl[1]);
    }
    assert(!has_prefix(pl, "/embed/"@)) by {
        assert(pl.subrange(0, 7)[1] == pl[1]);
    }
    if host != "youtu.be"@ {
        assert(pl != "/watch"@) by {
            assert(pl.len() != "/watch"@.len());
        }
    }
}

proof fn lemma_segment(id: Seq<char>, tail: Seq<char>)
    requires
        valid_id(id),
        tail.len() == 0 || tail[0] == '/',
    ensures
        until_char(id + tail, '/') == id,
{
    let s = id + tail;
    assert forall|k: int| 0 <= k <= 11 implies first_stop(s, '/', k) == 11 by {
        lemma_first_stop_down(s, k);
    }
    assert(s.subrange(0, 11) =~= id);
}

proof fn lemma_first_stop_down(s: Seq<char>, k: int)
    requires
        s.len() >= 11,
        0 <= k <= 11,
        forall|i: int| 0 <= i < 11 ==> s[i] != '/',
        s.len() == 11 || s[11] == '/',
    ensures
        first_stop(s, '/', k) == 11,
    decreases 11 - k,
{
    if k < 11 {
        lemma_first_stop_down(s, k + 1);
    }
}

/// Only valid identifiers come out, and only from the two video hosts.
pub proof fn lemma_only_valid_ids(host: Seq<char>, path: Seq<char>, query: Seq<(Seq<char>, Seq<char>)>)
    ensures
        video_id_of(host, path, query) matches Some(v) ==> valid_id(v),
        !(host == "youtu.be"@ || has_suffix(host, "youtube.com"@)) ==> video_id_of(host, path, query) is None,
{
}

} // verus!
