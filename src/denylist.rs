//! The curation denylist: video identifiers that are never reported.

use vstd::prelude::*;

use crate::text::{
    find_char, first_stop, lemma_first_stop_bounds, str_eq, trim, trim_of, until, until_char,
};
use crate::video_id::{is_valid_youtube_id, valid_id};

verus! {

/// A read-only set of excluded video identifiers.
pub struct Denylist {
    ids: Vec<String>,
}

/// Identifiers as sequences of characters.
pub open spec fn ids_view(ids: Seq<String>) -> Seq<Seq<char>> {
    ids.map_values(|s: String| s@)
}

impl View for Denylist {
    type V = Set<Seq<char>>;

    closed spec fn view(&self) -> Set<Seq<char>> {
        ids_view(self.ids@).to_set()
    }
}

impl Denylist {
    /// A denylist holding exactly the given identifiers.
    pub fn from_ids(ids: Vec<String>) -> (r: Denylist)
        ensures
            r@ == ids_view(ids@).to_set(),
    {
        Denylist { ids }
    }

    /// Whether `id` is excluded.
    pub fn contains(&self, id: &str) -> (r: bool)
        ensures
            r == self@.contains(id@),
    {
        let ghost v = ids_view(self.ids@);
        let mut i: usize = 0;
        while i < self.ids.len()
            invariant
                v == ids_view(self.ids@),
                i <= self.ids.len(),
                forall|k: int| 0 <= k < i ==> v[k] != id@,
            decreases self.ids.len() - i,
        {
            if str_eq(self.ids[i].as_str(), id) {
                assert(v[i as int] == id@);
                return true;
            }
            i += 1;
        }
        assert(!v.contains(id@));
        false
    }
}


/// The lines of `s`: the pieces between newline characters.
pub open spec fn lines(s: Seq<char>) -> Seq<Seq<char>>
    decreases s.len(),
    via lines_decreases
{
    let k = first_stop(s, '\n', 0);
    if k >= s.len() {
        seq![s]
    } else {
        seq![s.subrange(0, k)] + lines(s.subrange(k + 1, s.len() as int))
    }
}

#[via_fn]
proof fn lines_decreases(s: Seq<char>) {
    lemma_first_stop_bounds(s, '\n', 0);
}

/// The identifier a denylist line names, if any: the text before any '#',
/// trimmed; of that, the first '|'-separated field, trimmed, kept only if it
/// is a valid identifier.
pub open spec fn line_entry(line: Seq<char>) -> Option<Seq<char>> {
    let body = trim_of(until_char(line, '#'));
    let id = trim_of(until_char(body, '|'));
    if body.len() > 0 && valid_id(id) {
        Some(id)
    } else {
        None
    }
}

/// The identifiers that the lines name.
pub open spec fn entries_of(ls: Seq<Seq<char>>) -> Set<Seq<char>> {
    Set::new(|id: Seq<char>| exists|i: int| 0 <= i < ls.len() && line_entry(#[trigger] ls[i]) == Some(id))
}

/// The identifier a denylist line names, if any.
fn parse_line(line: &str) -> (r: Option<String>)
    ensures
        r.deep_view() == line_entry(line@),
{
    let before = until(line, '#');
    let body = trim(before.as_str());
    if body.unicode_len() == 0 {
        return None;
    }
    let field = until(body.as_str(), '|');
    let id = trim(field.as_str());
    if is_valid_youtube_id(id.as_str()) {
        Some(id)
    } else {
        None
    }
}

impl Denylist {
    /// Reads a denylist, one entry per line. Comments after '#' are ignored,
    /// a line's first '|'-separated field is the identifier, and lines that
    /// do not name a valid identifier are dropped.
    pub fn parse(text: &str) -> (r: Denylist)
        ensures
            r@ == entries_of(lines(text@)),
    {
        let mut ids: Vec<String> = Vec::new();
        let mut rest: &str = text;
        let ghost done: Seq<Seq<char>> = seq![];
        loop
            invariant
                lines(text@) == done + lines(rest@),
                ids_view(ids@).to_set() == entries_of(done),
            decreases rest@.len(),
        {
            let n = rest.unicode_len();
            let k = find_char(rest, '\n', 0);
            proof {
                lemma_first_stop_bounds(rest@, '\n', 0);
            }
            let line = rest.substring_char(0, k);
            let found = parse_line(line);
            let ghost old_ids = ids_view(ids@);
            match found {
                Some(id) => {
                    ids.push(id);
                },
                None => {},
            }
            proof {
                let l = line@;
                assert(ids_view(ids@).to_set() =~= entries_of(done.push(l))) by {
                    assert forall|x: Seq<char>| ids_view(ids@).to_set().contains(x) <==> entries_of(
                        done.push(l),
                    ).contains(x) by {
                        if ids_view(ids@).to_set().contains(x) {
                            let j = choose|j: int| 0 <= j < ids_view(ids@).len() && ids_view(ids@)[j] == x;
                            if j < old_ids.len() {
                                assert(old_ids[j] == x);
                                assert(old_ids.to_set().contains(x));
                                let i = choose|i: int| 0 <= i < done.len() && line_entry(#[trigger] done[i]) == Some(x);
                                assert(done.push(l)[i] == done[i]);
                            } else {
                                assert(done.push(l)[done.len() as int] == l);
                            }
                        }
                        if entries_of(done.push(l)).contains(x) {
                            let i = choose|i: int| 0 <= i < done.push(l).len() && line_entry(#[trigger] done.push(l)[i]) == Some(x);
                            if i < done.len() {
                                assert(done[i] == done.push(l)[i]);
                                assert(entries_of(done).contains(x));
                                let j = choose|j: int| 0 <= j < old_ids.len() && old_ids[j] == x;
                                assert(ids_view(ids@)[j] == x);
                            } else {
                                assert(ids_view(ids@)[ids_view(ids@).len() - 1] == x);
                            }
                        }
                    }
                }
            }
            if k >= n {
                proof {
                    assert(line@ =~= rest@);
                    assert(lines(rest@) == seq![rest@]);
                    assert(lines(text@) =~= done.push(line@));
                }
                return Denylist { ids };
            }
            let next = rest.substring_char(k + 1, n);
            proof {
                assert(lines(rest@) == seq![line@] + lines(next@));
                assert(lines(text@) =~= done.push(line@) + lines(next@));
                done = done.push(line@);
            }
            rest = next;
        }
    }
}

/// The curated list shipped with the library.
pub const CURATION_LIST: &'static str = "# One identifier per line; '#' starts a comment and '|' a note.\nG7g44Bca1UQ\n";

/// The curated denylist shipped with the library.
pub fn default_denylist() -> (r: Denylist)
    ensures
        r@ == entries_of(lines(CURATION_LIST@)),
{
    Denylist::parse(CURATION_LIST)
}

} // verus!
