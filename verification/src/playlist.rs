use crate::error::words;
use crate::text::{chars_of, find_from, lemma_search_bounds, search, string_of};
use vstd::prelude::*;
use vstd::slice::slice_subrange;

verus! {

/// One page of a playlist, as fetched: the videos it lists, in its order,
/// and the token with which the next page is asked for, where there is one.
#[derive(Debug, PartialEq, Eq)]
pub struct PlaylistPage {
    pub video_ids: Vec<String>,
    pub continuation: Option<String>,
}

/// What the caller does next.
#[derive(Debug, PartialEq, Eq)]
pub enum PlaylistStep {
    /// Fetch the page that this token names, and hand it in.
    Fetch(String),
    /// The playlist is at its end.
    Finished,
}

/// How many of `pages` a traversal takes in: all up to and including the
/// first that bears no token.
pub open spec fn pages_read(pages: Seq<PlaylistPage>) -> nat
    decreases pages.len(),
{
    if pages.len() == 0 {
        0
    } else if pages[0].continuation is None {
        1
    } else {
        1 + pages_read(pages.skip(1))
    }
}

/// The videos of all of `pages`, page after page, each page in its order.
pub open spec fn listed(pages: Seq<PlaylistPage>) -> Seq<String>
    decreases pages.len(),
{
    if pages.len() == 0 {
        Seq::empty()
    } else {
        listed(pages.drop_last()) + pages.last().video_ids@
    }
}

/// The videos that a traversal of `pages` gives: those of the pages it
/// takes in, in the order met, nothing left out and nothing joined.
pub open spec fn traversed(pages: Seq<PlaylistPage>) -> Seq<String> {
    listed(pages.take(pages_read(pages) as int))
}

/// The state of a traversal: the videos met so far, and whether the end
/// was reached.
#[derive(Debug, PartialEq, Eq)]
pub struct PlaylistWalk {
    pub video_ids: Vec<String>,
    pub finished: bool,
}

impl PlaylistWalk {
    /// A traversal before its first page.
    pub fn new() -> (walk: Self)
        ensures
            walk.video_ids@.len() == 0,
            !walk.finished,
    {
        PlaylistWalk { video_ids: Vec::new(), finished: false }
    }

    /// Takes in the page that was fetched. Its videos follow those met
    /// before. With a token on the page the traversal goes on with that
    /// token; without one it is finished. A page handed in after the end
    /// changes nothing.
    pub fn accept(&mut self, page: PlaylistPage) -> (step: PlaylistStep)
        ensures
            old(self).finished ==> *final(self) == *old(self) && step == PlaylistStep::Finished,
            !old(self).finished ==> final(self).video_ids@ == old(self).video_ids@
                + page.video_ids@,
            !old(self).finished ==> final(self).finished == (page.continuation is None),
            !old(self).finished ==> step == match page.continuation {
                Some(token) => PlaylistStep::Fetch(token),
                None => PlaylistStep::Finished,
            },
    {
        if self.finished {
            return PlaylistStep::Finished;
        }
        let mut page = page;
        self.video_ids.append(&mut page.video_ids);
        match page.continuation {
            Some(token) => PlaylistStep::Fetch(token),
            None => {
                self.finished = true;
                PlaylistStep::Finished
            },
        }
    }

    /// The videos met, in the order met.
    pub fn into_video_ids(self) -> (ids: Vec<String>)
        ensures
            ids@ == self.video_ids@,
    {
        self.video_ids
    }
}

/// Runs a traversal over pages that were fetched one after another: the
/// videos it gives and the number of pages it takes in. It stops at the
/// first page without a token, or where the pages run out.
pub fn traverse(pages: Vec<PlaylistPage>) -> (r: (Vec<String>, usize))
    ensures
        r.0@ == traversed(pages@),
        r.1 == pages_read(pages@),
{
    let ghost all = pages@;
    let mut rest = pages;
    let total: usize = rest.len();
    let mut walk = PlaylistWalk::new();
    let mut count: usize = 0;
    while rest.len() > 0 && !walk.finished
        invariant
            all.len() == total,
            count + rest@.len() == all.len(),
            rest@ == all.skip(count as int),
            walk.video_ids@ == listed(all.take(count as int)),
            !walk.finished ==> pages_read(all) == count + pages_read(rest@),
            walk.finished ==> pages_read(all) == count,
        decreases rest.len(),
    {
        let ghost before = rest@;
        let page = rest.remove(0);
        assert(page == before[0]);
        assert(rest@ =~= before.skip(1));
        assert(before.skip(1) == all.skip(count as int + 1));
        assert(all.take(count as int + 1).drop_last() == all.take(count as int));
        assert(all.take(count as int + 1).last() == page);
        let _ = walk.accept(page);
        count += 1;
    }
    assert(rest@.len() == 0 ==> pages_read(rest@) == 0);
    (walk.into_video_ids(), count)
}

/// A traversal stops exactly at the first page that bears no token: it takes
/// in that page and every page before it, and none after it. The videos
/// come in the order in which they were met on those pages.
pub proof fn law_traversal_stops_at_first_page_without_token(pages: Seq<PlaylistPage>, k: int)
    requires
        0 <= k < pages.len(),
        pages[k].continuation is None,
        forall|i: int| 0 <= i < k ==> (#[trigger] pages[i]).continuation is Some,
    ensures
        pages_read(pages) == k + 1,
        traversed(pages) == listed(pages.take(k + 1)),
    decreases k,
{
    if k > 0 {
        let rest = pages.skip(1);
        assert(pages[0].continuation is Some);
        assert(rest[k - 1] == pages[k]);
        assert forall|i: int| 0 <= i < k - 1 implies (#[trigger] rest[i]).continuation is Some by {
            assert(rest[i] == pages[i + 1]);
        }
        law_traversal_stops_at_first_page_without_token(rest, k - 1);
    }
}

/// Videos are never dropped or reordered: what one more page lists comes
/// after everything listed before, as it stands on the page.
pub proof fn law_pages_keep_their_order(pages: Seq<PlaylistPage>, page: PlaylistPage)
    ensures
        listed(pages.push(page)) == listed(pages) + page.video_ids@,
{
    assert(pages.push(page).drop_last() =~= pages);
}


/// What stands before the identifier of each video that a page lists.
pub open spec fn video_marker() -> Seq<char> {
    "\"playlistVideoRenderer\":{\"videoId\":\""@
}

/// What stands before the token with which the next page is asked for.
pub open spec fn token_marker() -> Seq<char> {
    "\"continuationCommand\":{\"token\":\""@
}

/// How many characters of `s` stand before its first `"`.
pub open spec fn quoted_len(s: Seq<char>) -> nat
    decreases s.len(),
{
    if s.len() == 0 || s[0] == '"' {
        0
    } else {
        1 + quoted_len(s.skip(1))
    }
}

/// The text that stands at `from` in `s`, up to the next `"`.
pub open spec fn quoted_at(s: Seq<char>, from: int) -> Seq<char> {
    s.subrange(from, from + quoted_len(s.skip(from)))
}

/// A quoted text ends within the text that holds it.
pub proof fn lemma_quoted_len(s: Seq<char>)
    ensures
        quoted_len(s) <= s.len(),
    decreases s.len(),
{
    if !(s.len() == 0 || s[0] == '"') {
        lemma_quoted_len(s.skip(1));
    }
}

/// The texts that follow each `marker` in `s` from `from` on, each up to
/// the next `"`, in the order in which they stand. A marker that stands
/// inside such a text is not counted.
pub open spec fn values_after(s: Seq<char>, marker: Seq<char>, from: int) -> Seq<Seq<char>>
    decreases s.len() - from,
    via values_after_decreases
{
    if marker.len() == 0 || from < 0 {
        Seq::empty()
    } else {
        match search(s, marker, from) {
            None => Seq::empty(),
            Some(at) => {
                let start = at + marker.len();
                seq![quoted_at(s, start)] + values_after(
                    s,
                    marker,
                    start + quoted_at(s, start).len(),
                )
            },
        }
    }
}

#[via_fn]
proof fn values_after_decreases(s: Seq<char>, marker: Seq<char>, from: int) {
    if marker.len() > 0 && from >= 0 {
        lemma_search_bounds(s, marker, from);
        match search(s, marker, from) {
            Some(at) => {
                lemma_quoted_len(s.skip(at + marker.len()));
            },
            None => {},
        }
    }
}

/// The videos behind each `video_marker` of `json`, in their order.
pub open spec fn page_videos(json: Seq<char>) -> Seq<Seq<char>> {
    values_after(json, video_marker(), 0)
}

/// The token behind the first `token_marker` of `json`, if there is one.
pub open spec fn page_token(json: Seq<char>) -> Option<Seq<char>> {
    match search(json, token_marker(), 0) {
        Some(at) => Some(quoted_at(json, at + token_marker().len())),
        None => None,
    }
}

fn quoted_end(s: &[char], from: usize) -> (end: usize)
    requires
        from <= s.len(),
    ensures
        from <= end <= s.len(),
        end - from == quoted_len(s@.skip(from as int)),
{
    let mut end: usize = from;
    assert(s@.skip(from as int).skip(0) == s@.skip(from as int));
    while end < s.len() && s[end] != '"'
        invariant
            from <= end <= s.len(),
            quoted_len(s@.skip(from as int)) == (end - from) + quoted_len(s@.skip(end as int)),
        decreases s.len() - end,
    {
        assert(s@.skip(end as int).skip(1) == s@.skip(end as int + 1));
        end += 1;
    }
    end
}

/// Reads one page of a playlist out of the text that holds it.
pub fn read_page(json: &str) -> (page: PlaylistPage)
    ensures
        words(page.video_ids@) == page_videos(json@),
        match page_token(json@) {
            Some(token) => page.continuation matches Some(t) && t@ == token,
            None => page.continuation is None,
        },
{
    let text = chars_of(json);
    let s = text.as_slice();
    let total = s.len();
    let video = chars_of("\"playlistVideoRenderer\":{\"videoId\":\"");
    let token = chars_of("\"continuationCommand\":{\"token\":\"");
    let mut video_ids: Vec<String> = Vec::new();
    let mut from: usize = 0;
    let ghost mut found: Seq<Seq<char>> = Seq::empty();
    assert(found + values_after(s@, video@, 0) =~= values_after(s@, video@, 0));
    let mut done = video.len() == 0;
    while !done
        invariant
            from <= s.len(),
            s@ == json@,
            video@ == video_marker(),
            words(video_ids@) == found,
            page_videos(json@) == found + values_after(s@, video@, from as int),
            done ==> values_after(s@, video@, from as int).len() == 0,
            !done ==> video@.len() > 0,
        decreases s.len() - from + if done { 0int } else { 1int },
    {
        match find_from(s, video.as_slice(), from) {
            None => {
                done = true;
            },
            Some(at) => {
                let start = at + video.len();
                let end = quoted_end(s, start);
                let id = string_of(slice_subrange(s, start, end));
                assert(id@ == quoted_at(s@, start as int));
                let ghost rest = values_after(s@, video@, end as int);
                assert(found + (seq![id@] + rest) =~= found.push(id@) + rest);
                video_ids.push(id);
                proof {
                    found = found.push(id@);
                }
                assert(words(video_ids@) =~= found);
                from = end;
            },
        }
    }
    assert(found + values_after(s@, video@, from as int) =~= found);
    let continuation = match find_from(s, token.as_slice(), 0) {
        None => None,
        Some(at) => {
            let start = at + token.len();
            let end = quoted_end(s, start);
            Some(string_of(slice_subrange(s, start, end)))
        },
    };
    PlaylistPage { video_ids, continuation }
}

} // verus!
