//! Extracting video links from posts and folding them, in post order, into
//! one entry per video.

use vstd::prelude::*;

use crate::denylist::Denylist;
use crate::text::{str_eq, trim, trim_of};
use crate::tip::{opt_tip_view, TipInfo, TipView};
use crate::video_id::{extract_video_id, link_video_id};

verus! {

/// A topic as the forum delivers it.
pub struct Topic {
    pub post_stream: PostStream,
}

/// The posts of a topic, in chronological order.
pub struct PostStream {
    pub posts: Vec<Post>,
}

/// One post: its number in the topic, its rendered HTML and its author.
pub struct Post {
    pub post_number: i64,
    pub cooked: String,
    pub username: String,
}

/// The record kept for one video.
#[derive(Debug, Clone, PartialEq, Eq)]
pub struct VideoEntry {
    pub video_id: String,
    pub source_post_url: String,
    pub username: String,
    pub tip_unified_address: Option<String>,
    pub tip_has_transparent: Option<bool>,
}

/// What a `VideoEntry` holds.
pub struct EntryView {
    pub video_id: Seq<char>,
    pub source_post_url: Seq<char>,
    pub username: Seq<char>,
    pub tip_unified_address: Option<Seq<char>>,
    pub tip_has_transparent: Option<bool>,
}

impl View for VideoEntry {
    type V = EntryView;

    open spec fn view(&self) -> EntryView {
        EntryView {
            video_id: self.video_id@,
            source_post_url: self.source_post_url@,
            username: self.username@,
            tip_unified_address: match self.tip_unified_address {
                Some(a) => Some(a@),
                None => None,
            },
            tip_has_transparent: self.tip_has_transparent,
        }
    }
}

/// Entries as their views.
pub open spec fn entries_view(v: Seq<VideoEntry>) -> Seq<EntryView> {
    v.map_values(|e: VideoEntry| e@)
}

/// Some entry of `m` has the identifier `id`.
pub open spec fn has_id(m: Seq<EntryView>, id: Seq<char>) -> bool {
    exists|k: int| 0 <= k < m.len() && (#[trigger] m[k]).video_id == id
}

/// No two entries share an identifier.
pub open spec fn ids_unique(m: Seq<EntryView>) -> bool {
    forall|a: int, b: int|
        0 <= a < m.len() && 0 <= b < m.len() && a != b ==> (#[trigger] m[a]).video_id
            != (#[trigger] m[b]).video_id
}

/// The videos found in a topic, one entry per identifier, in the order in
/// which the identifiers were first seen.
pub struct VideoMap {
    entries: Vec<VideoEntry>,
}

impl View for VideoMap {
    type V = Seq<EntryView>;

    closed spec fn view(&self) -> Seq<EntryView> {
        entries_view(self.entries@)
    }
}

/// The decimal digit for `d` in 0..10.
pub open spec fn digit_char(d: int) -> char {
    if d == 0 {
        '0'
    } else if d == 1 {
        '1'
    } else if d == 2 {
        '2'
    } else if d == 3 {
        '3'
    } else if d == 4 {
        '4'
    } else if d == 5 {
        '5'
    } else if d == 6 {
        '6'
    } else if d == 7 {
        '7'
    } else if d == 8 {
        '8'
    } else {
        '9'
    }
}

/// The decimal numeral of a natural number, without leading zeros.
pub open spec fn nat_decimal(n: nat) -> Seq<char>
    decreases n,
{
    if n < 10 {
        seq![digit_char(n as int)]
    } else {
        nat_decimal(n / 10).push(digit_char((n % 10) as int))
    }
}

/// The decimal numeral of an integer, with a leading '-' when negative.
pub open spec fn decimal(n: int) -> Seq<char> {
    if n < 0 {
        seq!['-'] + nat_decimal((-n) as nat)
    } else {
        nat_decimal(n as nat)
    }
}

/// The link to post number `n` of the topic at `topic_url`.
pub open spec fn post_url(topic_url: Seq<char>, n: i64) -> Seq<char> {
    topic_url + seq!['/'] + decimal(n as int)
}

fn digit_str(d: u64) -> (r: &'static str)
    requires
        d < 10,
    ensures
        r@ == seq![digit_char(d as int)],
{
    proof {
        reveal_strlit("0");
        reveal_strlit("1");
        reveal_strlit("2");
        reveal_strlit("3");
        reveal_strlit("4");
        reveal_strlit("5");
        reveal_strlit("6");
        reveal_strlit("7");
        reveal_strlit("8");
        reveal_strlit("9");
    }
    match d {
        0 => "0",
        1 => "1",
        2 => "2",
        3 => "3",
        4 => "4",
        5 => "5",
        6 => "6",
        7 => "7",
        8 => "8",
        _ => "9",
    }
}

fn append_nat_decimal(out: &mut String, n: u64)
    ensures
        final(out)@ == old(out)@ + nat_decimal(n as nat),
    decreases n,
{
    if n >= 10 {
        append_nat_decimal(out, n / 10);
        out.append(digit_str(n % 10));
        assert(nat_decimal(n as nat) == nat_decimal((n / 10) as nat).push(digit_char((n % 10) as int)));
    } else {
        out.append(digit_str(n));
    }
}

/// Appends the decimal numeral of `n`.
fn append_decimal(out: &mut String, n: i64)
    ensures
        final(out)@ == old(out)@ + decimal(n as int),
{
    proof {
        reveal_strlit("-");
    }
    if n < 0 {
        out.append("-");
        let m: u64 = if n == i64::MIN {
            9223372036854775808u64
        } else {
            (-n) as u64
        };
        append_nat_decimal(out, m);
    } else {
        append_nat_decimal(out, n as u64);
    }
}

/// The link to post number `n` of the topic at `topic_url`.
pub fn source_post_url(topic_url: &str, n: i64) -> (r: String)
    ensures
        r@ == post_url(topic_url@, n),
{
    proof {
        reveal_strlit("/");
    }
    let mut s = topic_url.to_string();
    s.append("/");
    append_decimal(&mut s, n);
    s
}


/// Relies on scraper (`Html::parse_fragment`, `Selector::parse`,
/// `ElementRef::attr`): for each element of the fragment `html` that
/// `selector` selects, in document order, the value of its attribute `attr`
/// if it has one. The result depends on the three arguments alone.
pub uninterp spec fn element_attrs_of(html: Seq<char>, selector: Seq<char>, attr: Seq<char>) -> Seq<Option<Seq<char>>>;

/// Attribute values as sequences of characters.
pub open spec fn opt_strings_view(v: Seq<Option<String>>) -> Seq<Option<Seq<char>>> {
    v.map_values(|o: Option<String>| match o {
        Some(s) => Some(s@),
        None => None,
    })
}

/// Relies on scraper: parses `html` as a fragment and reads `attr` on each
/// element that `selector` selects (no elements if the selector does not
/// parse).
#[verifier::external_body]
fn element_attrs(html: &str, selector: &str, attr: &str) -> (r: Vec<Option<String>>)
    ensures
        opt_strings_view(r@) == element_attrs_of(html@, selector@, attr@),
{
    let sel = match scraper::Selector::parse(selector) {
        Ok(sel) => sel,
        Err(_) => return Vec::new(),
    };
    let doc = scraper::Html::parse_fragment(html);
    doc.select(&sel).map(|a| a.value().attr(attr).map(|v| v.to_string())).collect()
}

/// The values that are present, in order.
pub open spec fn present(v: Seq<Option<Seq<char>>>) -> Seq<Seq<char>>
    decreases v.len(),
{
    if v.len() == 0 {
        seq![]
    } else {
        let prev = present(v.drop_last());
        match v.last() {
            Some(x) => prev.push(x),
            None => prev,
        }
    }
}

/// The identifiers that the links point to, in order, skipping links that do
/// not point to a video.
pub open spec fn ids_in_links(links: Seq<Seq<char>>) -> Seq<Seq<char>>
    decreases links.len(),
{
    if links.len() == 0 {
        seq![]
    } else {
        let prev = ids_in_links(links.drop_last());
        match link_video_id(links.last()) {
            Some(id) => prev.push(id),
            None => prev,
        }
    }
}

/// The hyperlinks of the anchors in a post's HTML (anchors without one
/// are passed over).
pub open spec fn post_links(html: Seq<char>) -> Seq<Seq<char>> {
    present(element_attrs_of(html, "a"@, "href"@))
}

/// The identifiers that a post's anchors link to, in document order.
pub open spec fn post_ids(html: Seq<char>) -> Seq<Seq<char>> {
    ids_in_links(post_links(html))
}

/// The identifiers of the videos that the anchors of `html` link to, in
/// document order (repeats included).
pub fn post_video_ids(html: &str) -> (r: Vec<String>)
    ensures
        crate::denylist::ids_view(r@) == post_ids(html@),
{
    let attrs = element_attrs(html, "a", "href");
    let ghost av = opt_strings_view(attrs@);
    let mut out: Vec<String> = Vec::new();
    let mut i: usize = 0;
    while i < attrs.len()
        invariant
            av == opt_strings_view(attrs@),
            av == element_attrs_of(html@, "a"@, "href"@),
            i <= attrs.len(),
            crate::denylist::ids_view(out@) == ids_in_links(present(av.take(i as int))),
        decreases attrs.len() - i,
    {
        proof {
            assert(av.take(i + 1).drop_last() =~= av.take(i as int));
        }
        match &attrs[i] {
            Some(link) => {
                let found = extract_video_id(link.as_str());
                proof {
                    let l = present(av.take(i + 1));
                    assert(av.take(i + 1).last() == Some(link@));
                    assert(l == present(av.take(i as int)).push(link@));
                    assert(l.drop_last() =~= present(av.take(i as int)));
                }
                match found {
                    Some(id) => {
                        out.push(id);
                        assert(crate::denylist::ids_view(out@) =~= ids_in_links(present(av.take(i + 1))));
                    },
                    None => {},
                }
            },
            None => {
                assert(av.take(i + 1).last() is None);
            },
        }
        i += 1;
    }
    assert(av.take(i as int) =~= av);
    out
}

/// Sightings of identifiers, each tagged with the index `k` of its post.
pub open spec fn tagged(ids: Seq<Seq<char>>, k: int) -> Seq<(Seq<char>, int)> {
    ids.map(|_j: int, id: Seq<char>| (id, k))
}

/// All sightings, post by post, in order.
pub open spec fn sightings(ids: Seq<Seq<Seq<char>>>) -> Seq<(Seq<char>, int)>
    decreases ids.len(),
{
    if ids.len() == 0 {
        seq![]
    } else {
        sightings(ids.drop_last()) + tagged(ids.last(), ids.len() - 1)
    }
}

/// A fresh entry for `id`, first seen in a post with number `n` by `user`.
pub open spec fn new_entry(id: Seq<char>, n: i64, user: Seq<char>, topic_url: Seq<char>) -> EntryView {
    EntryView {
        video_id: id,
        source_post_url: post_url(topic_url, n),
        username: user,
        tip_unified_address: None,
        tip_has_transparent: None,
    }
}

/// Folds sightings into entries: a denied identifier is skipped, an
/// identifier already present is left alone, any other gets a new entry.
pub open spec fn fold_sightings(
    s: Seq<(Seq<char>, int)>,
    posts: Seq<(i64, Seq<char>)>,
    topic_url: Seq<char>,
    deny: Set<Seq<char>>,
) -> Seq<EntryView>
    decreases s.len(),
{
    if s.len() == 0 {
        seq![]
    } else {
        let prev = fold_sightings(s.drop_last(), posts, topic_url, deny);
        let id = s.last().0;
        let k = s.last().1;
        if deny.contains(id) || has_id(prev, id) {
            prev
        } else {
            prev.push(new_entry(id, posts[k].0, posts[k].1, topic_url))
        }
    }
}

/// The number and author of each post.
pub open spec fn post_infos(posts: Seq<Post>) -> Seq<(i64, Seq<char>)> {
    posts.map_values(|p: Post| (p.post_number, p.username@))
}

/// The identifiers found in each post, as sequences of characters.
pub open spec fn nested_ids_view(ids: Seq<Vec<String>>) -> Seq<Seq<Seq<char>>> {
    ids.map_values(|v: Vec<String>| crate::denylist::ids_view(v@))
}

/// The entries for posts whose identifiers are `ids` (post by post).
pub open spec fn videos_of(
    posts: Seq<(i64, Seq<char>)>,
    ids: Seq<Seq<Seq<char>>>,
    topic_url: Seq<char>,
    deny: Set<Seq<char>>,
) -> Seq<EntryView> {
    fold_sightings(sightings(ids), posts, topic_url, deny)
}

/// The identifiers found in each of `posts`.
pub open spec fn ids_of_posts(posts: Seq<Post>) -> Seq<Seq<Seq<char>>> {
    posts.map_values(|p: Post| post_ids(p.cooked@))
}

/// Adds an entry for `id` unless one is there.
fn insert_first(entries: &mut Vec<VideoEntry>, id: String, n: i64, user: &String, topic_url: &str)
    requires
        ids_unique(entries_view(old(entries)@)),
    ensures
        ids_unique(entries_view(final(entries)@)),
        entries_view(final(entries)@) == (if has_id(entries_view(old(entries)@), id@) {
            entries_view(old(entries)@)
        } else {
            entries_view(old(entries)@).push(new_entry(id@, n, user@, topic_url@))
        }),
{
    let ghost ev = entries_view(entries@);
    let mut i: usize = 0;
    while i < entries.len()
        invariant
            ev == entries_view(entries@),
            ids_unique(ev),
            i <= entries.len(),
            forall|k: int| 0 <= k < i ==> ev[k].video_id != id@,
        decreases entries.len() - i,
    {
        if str_eq(entries[i].video_id.as_str(), id.as_str()) {
            assert(ev[i as int].video_id == id@);
            return;
        }
        i += 1;
    }
    let e = VideoEntry {
        source_post_url: source_post_url(topic_url, n),
        video_id: id,
        username: user.clone(),
        tip_unified_address: None,
        tip_has_transparent: None,
    };
    entries.push(e);
    assert(entries_view(entries@) =~= ev.push(new_entry(e@.video_id, n, user@, topic_url@)));
}

/// Folds the identifiers found in each post (`ids[k]` for `posts[k]`) into
/// one entry per identifier, first sighting wins, denied identifiers skipped.
pub fn collect_videos(posts: &[Post], ids: &Vec<Vec<String>>, topic_url: &str, denylist: &Denylist) -> (r: VideoMap)
    requires
        ids.len() == posts.len(),
    ensures
        ids_unique(r@),
        r@ == videos_of(post_infos(posts@), nested_ids_view(ids@), topic_url@, denylist@),
{
    let ghost pv = post_infos(posts@);
    let ghost iv = nested_ids_view(ids@);
    let mut entries: Vec<VideoEntry> = Vec::new();
    let mut i: usize = 0;
    while i < ids.len()
        invariant
            pv == post_infos(posts@),
            iv == nested_ids_view(ids@),
            ids.len() == posts.len(),
            i <= ids.len(),
            ids_unique(entries_view(entries@)),
            entries_view(entries@) == fold_sightings(sightings(iv.take(i as int)), pv, topic_url@, denylist@),
        decreases ids.len() - i,
    {
        let ghost before = sightings(iv.take(i as int));
        let row = &ids[i];
        let mut j: usize = 0;
        while j < row.len()
            invariant
                pv == post_infos(posts@),
                iv == nested_ids_view(ids@),
                ids.len() == posts.len(),
                i < ids.len(),
                row == ids@[i as int],
                before == sightings(iv.take(i as int)),
                j <= row.len(),
                ids_unique(entries_view(entries@)),
                entries_view(entries@) == fold_sightings(
                    before + tagged(iv[i as int].take(j as int), i as int),
                    pv,
                    topic_url@,
                    denylist@,
                ),
            decreases row.len() - j,
        {
            let ghost s_old = before + tagged(iv[i as int].take(j as int), i as int);
            let ghost s_new = before + tagged(iv[i as int].take(j + 1), i as int);
            proof {
                assert(iv[i as int] == crate::denylist::ids_view(row@));
                assert(s_new.drop_last() =~= s_old);
                assert(s_new.last() == (row@[j as int]@, i as int));
                assert(pv[i as int] == (posts@[i as int].post_number, posts@[i as int].username@));
            }
            let id = row[j].clone();
            if !denylist.contains(id.as_str()) {
                insert_first(&mut entries, id, posts[i].post_number, &posts[i].username, topic_url);
            }
            j += 1;
        }
        proof {
            assert(iv.take(i + 1).drop_last() =~= iv.take(i as int));
            assert(iv[i as int].take(j as int) =~= iv[i as int]);
            assert(iv.take(i + 1).last() == iv[i as int]);
        }
        i += 1;
    }
    assert(iv.take(i as int) =~= iv);
    VideoMap { entries }
}

/// Extracts the video links of each post in order and keeps one entry per
/// identifier: the first post that links to it (by input order) owns it,
/// and identifiers in `denylist` are skipped.
pub fn process_posts(posts: &[Post], topic_url: &str, denylist: &Denylist) -> (r: VideoMap)
    ensures
        ids_unique(r@),
        r@ == videos_of(post_infos(posts@), ids_of_posts(posts@), topic_url@, denylist@),
{
    let mut ids: Vec<Vec<String>> = Vec::new();
    let mut i: usize = 0;
    while i < posts.len()
        invariant
            i <= posts.len(),
            ids.len() == i,
            nested_ids_view(ids@) == ids_of_posts(posts@).take(i as int),
        decreases posts.len() - i,
    {
        let found = post_video_ids(posts[i].cooked.as_str());
        ids.push(found);
        assert(nested_ids_view(ids@) =~= ids_of_posts(posts@).take(i + 1));
        i += 1;
    }
    assert(ids_of_posts(posts@).take(i as int) =~= ids_of_posts(posts@));
    collect_videos(posts, &ids, topic_url, denylist)
}


impl VideoMap {
    /// The number of entries.
    pub fn len(&self) -> (r: usize)
        ensures
            r == self@.len(),
    {
        self.entries.len()
    }

    /// The entries, in the order in which their identifiers were first seen.
    pub fn entries(&self) -> (r: &Vec<VideoEntry>)
        ensures
            entries_view(r@) == self@,
    {
        &self.entries
    }

    /// The entry for `id`, if there is one.
    pub fn get(&self, id: &str) -> (r: Option<&VideoEntry>)
        ensures
            r.is_none() <==> !has_id(self@, id@),
            r matches Some(e) ==> e@.video_id == id@ && self@.contains(e@),
    {
        let ghost ev = entries_view(self.entries@);
        let mut i: usize = 0;
        while i < self.entries.len()
            invariant
                ev == entries_view(self.entries@),
                ev == self@,
                i <= self.entries.len(),
                forall|k: int| 0 <= k < i ==> ev[k].video_id != id@,
            decreases self.entries.len() - i,
        {
            if str_eq(self.entries[i].video_id.as_str(), id) {
                assert(ev[i as int] == self.entries@[i as int]@);
                return Some(&self.entries[i]);
            }
            i += 1;
        }
        None
    }

    /// Whether there is an entry for `id`.
    pub fn contains_key(&self, id: &str) -> (r: bool)
        ensures
            r == has_id(self@, id@),
    {
        self.get(id).is_some()
    }
}

/// The identifiers of sightings that are not denied.
pub open spec fn allowed_ids(s: Seq<(Seq<char>, int)>, deny: Set<Seq<char>>) -> Set<Seq<char>> {
    s.map_values(|x: (Seq<char>, int)| x.0).to_set().filter(|id: Seq<char>| !deny.contains(id))
}

/// The identifiers of entries, in order.
pub open spec fn entry_ids(m: Seq<EntryView>) -> Seq<Seq<char>> {
    m.map_values(|e: EntryView| e.video_id)
}

/// Sighting `f` is the first sighting of `id`.
pub open spec fn first_sighting(s: Seq<(Seq<char>, int)>, id: Seq<char>, f: int) -> bool {
    0 <= f < s.len() && s[f].0 == id && forall|g: int| 0 <= g < f ==> s[g].0 != id
}

/// `e` is the entry built from the first sighting of its identifier.
pub open spec fn from_first_sighting(
    s: Seq<(Seq<char>, int)>,
    posts: Seq<(i64, Seq<char>)>,
    topic_url: Seq<char>,
    e: EntryView,
) -> bool {
    exists|f: int|
        first_sighting(s, e.video_id, f) && e == new_entry(s[f].0, posts[s[f].1].0, posts[s[f].1].1, topic_url)
}

proof fn lemma_fold(
    s: Seq<(Seq<char>, int)>,
    posts: Seq<(i64, Seq<char>)>,
    topic_url: Seq<char>,
    deny: Set<Seq<char>>,
)
    ensures
        ids_unique(fold_sightings(s, posts, topic_url, deny)),
        forall|id: Seq<char>|
            has_id(fold_sightings(s, posts, topic_url, deny), id) <==> (!deny.contains(id) && exists|i: int|
                0 <= i < s.len() && (#[trigger] s[i]).0 == id),
        forall|k: int|
            0 <= k < fold_sightings(s, posts, topic_url, deny).len() ==> from_first_sighting(
                s,
                posts,
                topic_url,
                #[trigger] fold_sightings(s, posts, topic_url, deny)[k],
            ),
    decreases s.len(),
{
    if s.len() > 0 {
        let p = s.drop_last();
        lemma_fold(p, posts, topic_url, deny);
        let prev = fold_sightings(p, posts, topic_url, deny);
        let r = fold_sightings(s, posts, topic_url, deny);
        let id = s.last().0;
        assert forall|i: int| 0 <= i < p.len() implies p[i] == s[i] by {}
        assert forall|x: Seq<char>|
            has_id(r, x) <==> (!deny.contains(x) && exists|i: int| 0 <= i < s.len() && (#[trigger] s[i]).0 == x) by {
            if has_id(r, x) {
                let k = choose|k: int| 0 <= k < r.len() && (#[trigger] r[k]).video_id == x;
                if k < prev.len() {
                    assert(has_id(prev, x));
                    let i = choose|i: int| 0 <= i < p.len() && (#[trigger] p[i]).0 == x;
                    assert(s[i].0 == x);
                } else {
                    assert(s[s.len() - 1].0 == x);
                }
            }
            if !deny.contains(x) && exists|i: int| 0 <= i < s.len() && (#[trigger] s[i]).0 == x {
                let i = choose|i: int| 0 <= i < s.len() && (#[trigger] s[i]).0 == x;
                if i < p.len() {
                    assert(p[i].0 == x);
                    assert(has_id(prev, x));
                    let k = choose|k: int| 0 <= k < prev.len() && (#[trigger] prev[k]).video_id == x;
                    assert(r[k] == prev[k]);
                } else {
                    if !has_id(prev, id) {
                        assert(r[r.len() - 1].video_id == x);
                    }
                }
            }
        }
        assert forall|k: int| 0 <= k < r.len() implies from_first_sighting(
            s,
            posts,
            topic_url,
            #[trigger] r[k],
        ) by {
            if k < prev.len() {
                assert(from_first_sighting(p, posts, topic_url, prev[k]));
                let f = choose|f: int|
                    first_sighting(p, prev[k].video_id, f) && prev[k] == new_entry(
                        p[f].0,
                        posts[p[f].1].0,
                        posts[p[f].1].1,
                        topic_url,
                    );
                assert(first_sighting(s, r[k].video_id, f));
            } else {
                let f = s.len() - 1;
                assert forall|g: int| 0 <= g < f implies s[g].0 != id by {
                    if s[g].0 == id {
                        assert(p[g].0 == id);
                    }
                }
                assert(first_sighting(s, r[k].video_id, f));
            }
        }
        if !(deny.contains(id) || has_id(prev, id)) {
            assert forall|a: int, b: int|
                0 <= a < r.len() && 0 <= b < r.len() && a != b implies (#[trigger] r[a]).video_id
                    != (#[trigger] r[b]).video_id by {
                if a < prev.len() && b < prev.len() {
                    assert(r[a] == prev[a] && r[b] == prev[b]);
                } else if a < prev.len() {
                    assert(r[a] == prev[a]);
                } else {
                    assert(r[b] == prev[b]);
                }
            }
        }
    }
}

/// Dedup and first-seen-wins: for any sequence of sightings, the fold keeps
/// exactly one entry per identifier that is seen and not denied, so their
/// number is the number of such identifiers, and each entry is the one built
/// from the first sighting of its identifier.
pub proof fn lemma_one_entry_per_id(
    s: Seq<(Seq<char>, int)>,
    posts: Seq<(i64, Seq<char>)>,
    topic_url: Seq<char>,
    deny: Set<Seq<char>>,
)
    ensures
        ids_unique(fold_sightings(s, posts, topic_url, deny)),
        entry_ids(fold_sightings(s, posts, topic_url, deny)).to_set() == allowed_ids(s, deny),
        fold_sightings(s, posts, topic_url, deny).len() == allowed_ids(s, deny).len(),
        forall|k: int|
            0 <= k < fold_sightings(s, posts, topic_url, deny).len() ==> from_first_sighting(
                s,
                posts,
                topic_url,
                #[trigger] fold_sightings(s, posts, topic_url, deny)[k],
            ),
{
    lemma_fold(s, posts, topic_url, deny);
    let r = fold_sightings(s, posts, topic_url, deny);
    let e = entry_ids(r);
    let sv = s.map_values(|x: (Seq<char>, int)| x.0);
    assert forall|id: Seq<char>| e.to_set().contains(id) <==> allowed_ids(s, deny).contains(id) by {
        if e.to_set().contains(id) {
            let k = choose|k: int| 0 <= k < e.len() && e[k] == id;
            assert(r[k].video_id == id);
            assert(has_id(r, id));
            let i = choose|i: int| 0 <= i < s.len() && (#[trigger] s[i]).0 == id;
            assert(sv[i] == id);
        }
        if allowed_ids(s, deny).contains(id) {
            assert(sv.to_set().contains(id));
            let i = choose|i: int| 0 <= i < sv.len() && sv[i] == id;
            assert(s[i].0 == id);
            assert(has_id(r, id));
            let k = choose|k: int| 0 <= k < r.len() && (#[trigger] r[k]).video_id == id;
            assert(e[k] == id);
        }
    }
    assert(e.to_set() =~= allowed_ids(s, deny));
    assert(e.no_duplicates()) by {
        assert forall|a: int, b: int| 0 <= a < e.len() && 0 <= b < e.len() && a != b implies #[trigger] e[a]
            != #[trigger] e[b] by {
            assert(r[a].video_id != r[b].video_id);
        }
    }
    e.unique_seq_to_set();
}

/// Denied identifiers never get an entry, however many posts link to them.
pub proof fn lemma_denied_absent(
    posts: Seq<(i64, Seq<char>)>,
    ids: Seq<Seq<Seq<char>>>,
    topic_url: Seq<char>,
    deny: Set<Seq<char>>,
    id: Seq<char>,
)
    requires
        deny.contains(id),
    ensures
        !has_id(videos_of(posts, ids, topic_url, deny), id),
{
    lemma_fold(sightings(ids), posts, topic_url, deny);
}

/// Extraction is a function of its inputs: equal posts, topic link and
/// denylist give equal entries, in the same order.
pub proof fn lemma_extraction_deterministic(
    posts1: Seq<Post>,
    posts2: Seq<Post>,
    topic_url: Seq<char>,
    deny: Set<Seq<char>>,
)
    requires
        post_infos(posts1) == post_infos(posts2),
        ids_of_posts(posts1) == ids_of_posts(posts2),
    ensures
        videos_of(post_infos(posts1), ids_of_posts(posts1), topic_url, deny) == videos_of(
            post_infos(posts2),
            ids_of_posts(posts2),
            topic_url,
            deny,
        ),
{
}


/// Item `j` of post `q` occurs among the sightings, tagged with `q`.
pub open spec fn seen(ids: Seq<Seq<Seq<char>>>, q: int, j: int) -> bool {
    exists|f: int| 0 <= f < sightings(ids).len() && #[trigger] sightings(ids)[f] == (ids[q][j], q)
}

proof fn lemma_sightings(ids: Seq<Seq<Seq<char>>>)
    ensures
        forall|f: int|
            0 <= f < sightings(ids).len() ==> 0 <= (#[trigger] sightings(ids)[f]).1 < ids.len()
                && ids[sightings(ids)[f].1].contains(sightings(ids)[f].0),
        forall|q: int, j: int| 0 <= q < ids.len() && 0 <= j < ids[q].len() ==> #[trigger] seen(ids, q, j),
        forall|f: int, g: int|
            0 <= f <= g < sightings(ids).len() ==> (#[trigger] sightings(ids)[f]).1 <= (
            #[trigger] sightings(ids)[g]).1,
    decreases ids.len(),
{
    if ids.len() > 0 {
        let d = ids.drop_last();
        lemma_sightings(d);
        let p = sightings(d);
        let t = tagged(ids.last(), ids.len() - 1);
        let s = sightings(ids);
        assert(s == p + t);
        assert forall|f: int| 0 <= f < s.len() implies 0 <= (#[trigger] s[f]).1 < ids.len()
            && ids[s[f].1].contains(s[f].0) by {
            if f < p.len() {
                assert(s[f] == p[f]);
                assert(d[p[f].1] == ids[p[f].1]);
            } else {
                assert(s[f] == t[f - p.len()]);
                assert(ids.last()[f - p.len()] == s[f].0);
            }
        }
        assert forall|q: int, j: int| 0 <= q < ids.len() && 0 <= j < ids[q].len() implies #[trigger] seen(ids, q, j) by {
            if q < d.len() {
                assert(d[q][j] == ids[q][j]);
                assert(seen(d, q, j));
                let f = choose|f: int| #![trigger p[f]] 0 <= f < p.len() && p[f] == (d[q][j], q);
                assert(s[f] == p[f]);
                assert(0 <= f < sightings(ids).len() && sightings(ids)[f] == (ids[q][j], q));
            } else {
                let f = p.len() + j;
                assert(ids.last() == ids[q]);
                assert(t.len() == ids[q].len());
                assert(t[j] == (ids[q][j], q));
                assert(s[f] == t[j]);
                assert(0 <= f < sightings(ids).len() && sightings(ids)[f] == (ids[q][j], q));
            }
        }
        assert forall|f: int, g: int| 0 <= f <= g < s.len() implies (#[trigger] s[f]).1 <= (
        #[trigger] s[g]).1 by {
            if g < p.len() {
                assert(s[f] == p[f] && s[g] == p[g]);
            } else if f < p.len() {
                assert(s[f] == p[f]);
                assert(s[g] == t[g - p.len()]);
            } else {
                assert(s[f] == t[f - p.len()]);
                assert(s[g] == t[g - p.len()]);
            }
        }
    }
}

/// `p` is the first post, by input order, whose links include `id`.
pub open spec fn first_post_with(ids: Seq<Seq<Seq<char>>>, id: Seq<char>, p: int) -> bool {
    0 <= p < ids.len() && ids[p].contains(id) && forall|q: int| 0 <= q < p ==> !(#[trigger] ids[q]).contains(id)
}

/// First post wins: every entry belongs to the first post (by input order)
/// that links to its identifier, with that post's link and author.
pub proof fn lemma_first_post_owns(
    posts: Seq<(i64, Seq<char>)>,
    ids: Seq<Seq<Seq<char>>>,
    topic_url: Seq<char>,
    deny: Set<Seq<char>>,
    k: int,
)
    requires
        0 <= k < videos_of(posts, ids, topic_url, deny).len(),
    ensures
        exists|p: int|
            first_post_with(ids, videos_of(posts, ids, topic_url, deny)[k].video_id, p)
                && videos_of(posts, ids, topic_url, deny)[k] == new_entry(
                videos_of(posts, ids, topic_url, deny)[k].video_id,
                posts[p].0,
                posts[p].1,
                topic_url,
            ),
{
    let s = sightings(ids);
    lemma_fold(s, posts, topic_url, deny);
    lemma_sightings(ids);
    let e = videos_of(posts, ids, topic_url, deny)[k];
    assert(from_first_sighting(s, posts, topic_url, e));
    let f = choose|f: int|
        first_sighting(s, e.video_id, f) && e == new_entry(s[f].0, posts[s[f].1].0, posts[s[f].1].1, topic_url);
    let p = s[f].1;
    assert(0 <= p < ids.len() && ids[p].contains(e.video_id));
    assert forall|q: int| 0 <= q < p implies !(#[trigger] ids[q]).contains(e.video_id) by {
        if ids[q].contains(e.video_id) {
            let j = choose|j: int| 0 <= j < ids[q].len() && ids[q][j] == e.video_id;
            assert(seen(ids, q, j));
            let g = choose|g: int| #![trigger s[g]] 0 <= g < s.len() && s[g] == (ids[q][j], q);
            if g >= f {
                assert(s[f].1 <= s[g].1);
            }
        }
    }
    assert(first_post_with(ids, e.video_id, p));
}


/// The author handle under which an entry's tip is looked up.
pub open spec fn author_key(e: EntryView) -> Seq<char> {
    trim_of(e.username)
}

/// The distinct non-empty author handles of the entries.
pub open spec fn authors_of(m: Seq<EntryView>) -> Set<Seq<char>> {
    Set::new(|a: Seq<char>| a.len() > 0 && exists|k: int| 0 <= k < m.len() && author_key(#[trigger] m[k]) == a)
}

/// Lookup results as views.
pub open spec fn results_view(r: Seq<(String, Option<TipInfo>)>) -> Seq<(Seq<char>, Option<TipView>)> {
    r.map_values(|p: (String, Option<TipInfo>)| (p.0@, opt_tip_view(p.1)))
}

/// The first tip found for `key` in `r[i..]`.
pub open spec fn tip_for_from(r: Seq<(Seq<char>, Option<TipView>)>, key: Seq<char>, i: int) -> Option<TipView>
    decreases r.len() - i,
{
    if 0 <= i < r.len() {
        if r[i].0 == key && r[i].1 is Some {
            r[i].1
        } else {
            tip_for_from(r, key, i + 1)
        }
    } else {
        None
    }
}

/// The tip found for `key`, if any.
pub open spec fn tip_for(r: Seq<(Seq<char>, Option<TipView>)>, key: Seq<char>) -> Option<TipView> {
    tip_for_from(r, key, 0)
}

/// `e` with the tip fields set from `t` when there is one.
pub open spec fn with_tip(e: EntryView, t: Option<TipView>) -> EntryView {
    match t {
        Some(t) => EntryView {
            tip_unified_address: Some(t.address),
            tip_has_transparent: Some(t.has_transparent),
            ..e
        },
        None => e,
    }
}

fn find_tip(results: &Vec<(String, Option<TipInfo>)>, key: &str) -> (r: Option<TipInfo>)
    ensures
        opt_tip_view(r) == tip_for(results_view(results@), key@),
{
    let ghost rv = results_view(results@);
    let mut i: usize = 0;
    while i < results.len()
        invariant
            rv == results_view(results@),
            i <= results.len(),
            tip_for(rv, key@) == tip_for_from(rv, key@, i as int),
        decreases results.len() - i,
    {
        assert(rv[i as int] == (results@[i as int].0@, opt_tip_view(results@[i as int].1)));
        if str_eq(results[i].0.as_str(), key) {
            match &results[i].1 {
                Some(t) => {
                    return Some(TipInfo { address: t.address.clone(), has_transparent: t.has_transparent });
                },
                None => {},
            }
        }
        i += 1;
    }
    None
}

/// No handle occurs twice among the results.
pub open spec fn keys_unique(r: Seq<(Seq<char>, Option<TipView>)>) -> bool {
    forall|a: int, b: int| 0 <= a < r.len() && 0 <= b < r.len() && a != b ==> (#[trigger] r[a]).0 != (#[trigger] r[b]).0
}

proof fn lemma_tip_for_unique(r: Seq<(Seq<char>, Option<TipView>)>, key: Seq<char>, i: int, j: int)
    requires
        keys_unique(r),
        0 <= i <= j < r.len(),
        r[j].0 == key,
    ensures
        tip_for_from(r, key, i) == r[j].1,
    decreases j - i,
{
    if i < j {
        assert(r[i].0 != key);
        lemma_tip_for_unique(r, key, i + 1, j);
    } else if r[j].1 is None {
        assert forall|q: int| j + 1 <= q < r.len() implies (#[trigger] r[q]).0 != key by {
            assert(r[q].0 != r[j].0);
        }
        lemma_tip_for_absent(r, key, j + 1);
    }
}

proof fn lemma_tip_for_absent(r: Seq<(Seq<char>, Option<TipView>)>, key: Seq<char>, i: int)
    requires
        0 <= i <= r.len(),
        forall|j: int| i <= j < r.len() ==> (#[trigger] r[j]).0 != key,
    ensures
        tip_for_from(r, key, i) is None,
    decreases r.len() - i,
{
    if i < r.len() {
        lemma_tip_for_absent(r, key, i + 1);
    }
}

/// The merge does not depend on the order in which lookups completed: two
/// result lists with the same elements and no repeated handle give every
/// handle the same tip.
pub proof fn lemma_merge_order_independent(
    r1: Seq<(Seq<char>, Option<TipView>)>,
    r2: Seq<(Seq<char>, Option<TipView>)>,
    key: Seq<char>,
)
    requires
        keys_unique(r1),
        keys_unique(r2),
        r1.to_set() == r2.to_set(),
    ensures
        tip_for(r1, key) == tip_for(r2, key),
{
    if exists|j: int| 0 <= j < r1.len() && (#[trigger] r1[j]).0 == key {
        let j = choose|j: int| 0 <= j < r1.len() && (#[trigger] r1[j]).0 == key;
        lemma_tip_for_unique(r1, key, 0, j);
        assert(r1.to_set().contains(r1[j]));
        assert(r2.to_set().contains(r1[j]));
        let k = choose|k: int| 0 <= k < r2.len() && r2[k] == r1[j];
        lemma_tip_for_unique(r2, key, 0, k);
    } else {
        lemma_tip_for_absent(r1, key, 0);
        assert forall|k: int| 0 <= k < r2.len() implies (#[trigger] r2[k]).0 != key by {
            assert(r2.to_set().contains(r2[k]));
            assert(r1.to_set().contains(r2[k]));
            let j = choose|j: int| 0 <= j < r1.len() && r1[j] == r2[k];
            assert(r1[j].0 == r2[k].0);
        }
        lemma_tip_for_absent(r2, key, 0);
    }
}

impl VideoMap {
    /// The distinct, non-empty author handles (trimmed) of the entries, in
    /// order of first appearance.
    pub fn authors(&self) -> (r: Vec<String>)
        ensures
            crate::denylist::ids_view(r@).no_duplicates(),
            crate::denylist::ids_view(r@).to_set() == authors_of(self@),
    {
        let ghost m = self@;
        let mut out: Vec<String> = Vec::new();
        let mut i: usize = 0;
        while i < self.entries.len()
            invariant
                m == self@,
                m == entries_view(self.entries@),
                i <= self.entries.len(),
                crate::denylist::ids_view(out@).no_duplicates(),
                crate::denylist::ids_view(out@).to_set() == authors_of(m.take(i as int)),
            decreases self.entries.len() - i,
        {
            let key = trim(self.entries[i].username.as_str());
            let ghost ov = crate::denylist::ids_view(out@);
            let mut seen = false;
            let mut j: usize = 0;
            while j < out.len() && !seen
                invariant
                    ov == crate::denylist::ids_view(out@),
                    j <= out.len(),
                    !seen ==> forall|q: int| 0 <= q < j ==> ov[q] != key@,
                    seen ==> ov.contains(key@),
                decreases out.len() - j,
            {
                if str_eq(out[j].as_str(), key.as_str()) {
                    assert(ov[j as int] == key@);
                    seen = true;
                }
                j += 1;
            }
            proof {
                assert(m[i as int] == self.entries@[i as int]@);
                assert(author_key(m[i as int]) == key@);
            }
            if key.unicode_len() > 0 && !seen {
                out.push(key);
                proof {
                    let nv = crate::denylist::ids_view(out@);
                    assert(nv =~= ov.push(key@));
                    assert(!ov.contains(key@));
                    assert(nv.to_set() =~= authors_of(m.take(i + 1))) by {
                        assert forall|a: Seq<char>| nv.to_set().contains(a) <==> authors_of(m.take(i + 1)).contains(a) by {
                            if nv.to_set().contains(a) && a != key@ {
                                let q = choose|q: int| 0 <= q < nv.len() && nv[q] == a;
                                assert(ov[q] == a);
                                assert(ov.to_set().contains(a));
                                let k = choose|k: int| 0 <= k < i && author_key(#[trigger] m.take(i as int)[k]) == a;
                                assert(m.take(i + 1)[k] == m.take(i as int)[k]);
                            }
                            if nv.to_set().contains(a) && a == key@ {
                                assert(m.take(i + 1)[i as int] == m[i as int]);
                            }
                            if authors_of(m.take(i + 1)).contains(a) && a != key@ {
                                let k = choose|k: int| 0 <= k < i + 1 && author_key(#[trigger] m.take(i + 1)[k]) == a;
                                assert(k < i);
                                assert(m.take(i as int)[k] == m.take(i + 1)[k]);
                                assert(authors_of(m.take(i as int)).contains(a));
                                let q = choose|q: int| 0 <= q < ov.len() && ov[q] == a;
                                assert(nv[q] == a);
                            }
                            if authors_of(m.take(i + 1)).contains(a) && a == key@ {
                                assert(nv[nv.len() - 1] == a);
                            }
                        }
                    }
                }
            } else {
                proof {
                    assert(authors_of(m.take(i + 1)) =~= authors_of(m.take(i as int))) by {
                        assert forall|a: Seq<char>| authors_of(m.take(i + 1)).contains(a) implies authors_of(m.take(i as int)).contains(a) by {
                            let k = choose|k: int| 0 <= k < i + 1 && author_key(#[trigger] m.take(i + 1)[k]) == a;
                            if k < i {
                                assert(m.take(i as int)[k] == m.take(i + 1)[k]);
                            } else {
                                assert(a == key@);
                                assert(ov.contains(key@));
                                let q = choose|q: int| 0 <= q < ov.len() && ov[q] == key@;
                                let k2 = choose|k2: int| 0 <= k2 < i && author_key(#[trigger] m.take(i as int)[k2]) == a;
                            }
                        }
                        assert forall|a: Seq<char>| authors_of(m.take(i as int)).contains(a) implies authors_of(m.take(i + 1)).contains(a) by {
                            let k = choose|k: int| 0 <= k < i && author_key(#[trigger] m.take(i as int)[k]) == a;
                            assert(m.take(i + 1)[k] == m.take(i as int)[k]);
                        }
                    }
                }
            }
            i += 1;
        }
        assert(m.take(i as int) =~= m);
        out
    }

    /// Sets the tip fields of every entry whose (trimmed) author has a tip
    /// in `results`; other entries keep them unset.
    pub fn apply_tips(&mut self, results: &Vec<(String, Option<TipInfo>)>)
        ensures
            final(self)@.len() == old(self)@.len(),
            forall|k: int|
                0 <= k < old(self)@.len() ==> #[trigger] final(self)@[k] == with_tip(
                    old(self)@[k],
                    tip_for(results_view(results@), author_key(old(self)@[k])),
                ),
    {
        let ghost m0 = self@;
        let mut i: usize = 0;
        while i < self.entries.len()
            invariant
                m0.len() == self@.len(),
                i <= self.entries.len(),
                forall|k: int| 0 <= k < i ==> #[trigger] self@[k] == with_tip(
                    m0[k],
                    tip_for(results_view(results@), author_key(m0[k])),
                ),
                forall|k: int| i <= k < m0.len() ==> #[trigger] self@[k] == m0[k],
            decreases self.entries.len() - i,
        {
            let key = trim(self.entries[i].username.as_str());
            let found = find_tip(results, key.as_str());
            let ghost before = self.entries@;
            proof {
                assert(self@[i as int] == self.entries@[i as int]@);
                assert(self@[i as int] == m0[i as int]);
            }
            match found {
                Some(t) => {
                    self.entries[i].tip_unified_address = Some(t.address);
                    self.entries[i].tip_has_transparent = Some(t.has_transparent);
                },
                None => {},
            }
            proof {
                assert(self.entries@.len() == before.len());
                assert forall|k: int| 0 <= k < before.len() && k != i implies self.entries@[k] == before[k] by {}
                assert(self@[i as int] == self.entries@[i as int]@);
                assert(self@[i as int] == with_tip(m0[i as int], tip_for(results_view(results@), author_key(m0[i as int]))));
                assert forall|k: int| 0 <= k < m0.len() && k != i implies #[trigger] self@[k] == entries_view(before)[k] by {
                    assert(self@[k] == self.entries@[k]@);
                }
            }
            i += 1;
        }
    }
}


/// `s` without its trailing '/' characters.
pub open spec fn strip_slashes(s: Seq<char>) -> Seq<char>
    decreases s.len(),
{
    if s.len() > 0 && s.last() == '/' {
        strip_slashes(s.drop_last())
    } else {
        s
    }
}

/// The topic link without trailing '/' characters.
pub fn trim_trailing_slashes(topic_url: &str) -> (r: String)
    ensures
        r@ == strip_slashes(topic_url@),
{
    let mut j = topic_url.unicode_len();
    assert(topic_url@.subrange(0, j as int) =~= topic_url@);
    while j > 0 && topic_url.get_char(j - 1) == '/'
        invariant
            j <= topic_url@.len(),
            strip_slashes(topic_url@) == strip_slashes(topic_url@.subrange(0, j as int)),
        decreases j,
    {
        assert(topic_url@.subrange(0, j as int).drop_last() =~= topic_url@.subrange(0, j - 1));
        j -= 1;
    }
    topic_url.substring_char(0, j).to_string()
}

/// The link of a topic's complete structured form (all posts at once).
pub open spec fn topic_json_link(topic_url: Seq<char>) -> Seq<char> {
    strip_slashes(topic_url) + ".json?print=true"@
}

/// The link from which a topic's posts are fetched.
pub fn topic_json_url(topic_url: &str) -> (r: String)
    ensures
        r@ == topic_json_link(topic_url@),
{
    let mut s = trim_trailing_slashes(topic_url);
    s.append(".json?print=true");
    s
}

} // verus!
