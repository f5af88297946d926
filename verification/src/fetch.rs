use vstd::prelude::*;
use vstd::string::StringExecFns;

use crate::encoding::{html_text, html_to_text};
use crate::models::{Message, MessageView};
use crate::text::{chars_eq, chars_of, decimal, decimal_string, slice_chars, string_of};
use crate::urls::{char_views, dedup, extract_urls, urls_in, views};

verus! {

// ---------------------------------------------------------------------------
// The cache of fetched pages
// ---------------------------------------------------------------------------

/// The text fetched for each link, shared by all bots of one round.
pub struct UrlCache {
    entries: Vec<(String, String)>,
    model: Ghost<Map<Seq<char>, Seq<char>>>,
}

impl View for UrlCache {
    type V = Map<Seq<char>, Seq<char>>;

    closed spec fn view(&self) -> Map<Seq<char>, Seq<char>> {
        self.model@
    }
}

impl UrlCache {
    /// Well-formedness: one entry per link, and the entries are the map.
    pub closed spec fn wf(&self) -> bool {
        &&& forall|i: int, j: int|
            0 <= i < j < self.entries@.len() ==> (#[trigger] self.entries@[i]).0@
                != (#[trigger] self.entries@[j]).0@
        &&& forall|k: Seq<char>|
            #[trigger] self.model@.contains_key(k) <==> exists|i: int|
                0 <= i < self.entries@.len() && (#[trigger] self.entries@[i]).0@ == k
        &&& forall|i: int|
            0 <= i < self.entries@.len() ==> self.model@[(#[trigger] self.entries@[i]).0@]
                == self.entries@[i].1@
        &&& self.model@.dom().finite()
    }

    pub fn new() -> (c: Self)
        ensures
            c.wf(),
            c@ == Map::<Seq<char>, Seq<char>>::empty(),
    {
        UrlCache { entries: Vec::new(), model: Ghost(Map::empty()) }
    }

    fn find(&self, url: &Vec<char>) -> (r: Option<usize>)
        requires
            self.wf(),
        ensures
            match r {
                Some(i) => i < self.entries@.len() && self.entries@[i as int].0@ == url@,
                None => !self@.contains_key(url@),
            },
    {
        let mut i: usize = 0;
        while i < self.entries.len()
            invariant
                self.wf(),
                i <= self.entries@.len(),
                forall|j: int| 0 <= j < i ==> self.entries@[j].0@ != url@,
            decreases self.entries.len() - i,
        {
            let k = chars_of(self.entries[i].0.as_str());
            if chars_eq(&k, url) {
                return Some(i);
            }
            i += 1;
        }
        None
    }

    /// The text stored for a link.
    pub fn get(&self, url: &str) -> (r: Option<String>)
        requires
            self.wf(),
        ensures
            match r {
                Some(s) => self@.contains_key(url@) && self@[url@] == s@,
                None => !self@.contains_key(url@),
            },
    {
        let u = chars_of(url);
        match self.find(&u) {
            Some(i) => Some(self.entries[i].1.clone()),
            None => None,
        }
    }

    /// Stores the text fetched for a link, replacing an earlier one.
    pub fn insert(&mut self, url: String, content: String)
        requires
            old(self).wf(),
        ensures
            final(self).wf(),
            final(self)@ == old(self)@.insert(url@, content@),
    {
        let u = chars_of(url.as_str());
        let ghost m = self.model@.insert(url@, content@);
        match self.find(&u) {
            Some(i) => {
                let ghost old_entries = self.entries@;
                self.entries.set(i, (url, content));
                self.model = Ghost(m);
                assert forall|k: Seq<char>|
                    #[trigger] self.model@.contains_key(k) <==> exists|j: int|
                        0 <= j < self.entries@.len() && (#[trigger] self.entries@[j]).0@ == k by {
                    if k != u@ && self.model@.contains_key(k) {
                        let j = choose|j: int|
                            0 <= j < old_entries.len() && (#[trigger] old_entries[j]).0@ == k;
                        assert(self.entries@[j] == old_entries[j]);
                    }
                    if k == u@ {
                        assert(self.entries@[i as int].0@ == k);
                    }
                }
            },
            None => {
                let ghost old_entries = self.entries@;
                self.entries.push((url, content));
                self.model = Ghost(m);
                assert forall|k: Seq<char>|
                    #[trigger] self.model@.contains_key(k) <==> exists|j: int|
                        0 <= j < self.entries@.len() && (#[trigger] self.entries@[j]).0@ == k by {
                    if k != u@ && self.model@.contains_key(k) {
                        let j = choose|j: int|
                            0 <= j < old_entries.len() && (#[trigger] old_entries[j]).0@ == k;
                        assert(self.entries@[j] == old_entries[j]);
                    }
                    if k == u@ {
                        assert(self.entries@[old_entries.len() as int].0@ == k);
                    }
                    if exists|j: int| 0 <= j < self.entries@.len() && (#[trigger] self.entries@[j]).0@ == k {
                        let j = choose|j: int| 0 <= j < self.entries@.len() && (#[trigger] self.entries@[j]).0@ == k;
                        if j < old_entries.len() {
                            assert(old_entries[j] == self.entries@[j]);
                        }
                    }
                }
                assert forall|a: int, b: int|
                    0 <= a < b < self.entries@.len() implies (#[trigger] self.entries@[a]).0@
                        != (#[trigger] self.entries@[b]).0@ by {
                    if b == old_entries.len() {
                        assert(old_entries[a] == self.entries@[a]);
                    } else {
                        assert(old_entries[a] == self.entries@[a]);
                        assert(old_entries[b] == self.entries@[b]);
                    }
                }
            },
        }
    }

    /// Whether nothing is stored.
    pub fn is_empty(&self) -> (r: bool)
        requires
            self.wf(),
        ensures
            r <==> self@ == Map::<Seq<char>, Seq<char>>::empty(),
    {
        if self.entries.len() == 0 {
            assert(self@ =~= Map::<Seq<char>, Seq<char>>::empty());
            true
        } else {
            assert(self@.contains_key(self.entries@[0].0@));
            false
        }
    }

    /// How many links are stored.
    pub fn len(&self) -> (n: usize)
        requires
            self.wf(),
        ensures
            n == self@.dom().len(),
    {
        proof {
            self.lemma_len();
        }
        self.entries.len()
    }

    proof fn lemma_len(&self)
        requires
            self.wf(),
        ensures
            self.entries@.len() == self@.dom().len(),
    {
        let keys = self.entries@.map_values(|e: (String, String)| e.0@);
        assert(keys.no_duplicates()) by {
            assert forall|a: int, b: int| 0 <= a < keys.len() && 0 <= b < keys.len() && a != b implies keys[a] != keys[b] by {
                if a < b {
                    assert(self.entries@[a].0@ != self.entries@[b].0@);
                } else {
                    assert(self.entries@[b].0@ != self.entries@[a].0@);
                }
            }
        }
        assert(keys.to_set() =~= self@.dom()) by {
            assert forall|k: Seq<char>| keys.to_set().contains(k) <==> self@.dom().contains(k) by {
                if self@.dom().contains(k) {
                    let j = choose|j: int| 0 <= j < self.entries@.len() && (#[trigger] self.entries@[j]).0@ == k;
                    assert(keys[j] == k);
                }
                if keys.to_set().contains(k) {
                    let j = choose|j: int| 0 <= j < keys.len() && keys[j] == k;
                    assert(self.entries@[j].0@ == k);
                }
            }
        }
        keys.unique_seq_to_set();
    }
}

/// The cache made from the results of fetching each link: the links that were fetched keep
/// their text; failed fetches are left out.
pub open spec fn cache_of_fetches(results: Seq<(Seq<char>, Result<Seq<char>, Seq<char>>)>) -> Map<
    Seq<char>,
    Seq<char>,
>
    decreases results.len(),
{
    if results.len() == 0 {
        Map::empty()
    } else {
        let m = cache_of_fetches(results.drop_last());
        match results.last().1 {
            Ok(c) => m.insert(results.last().0, c),
            Err(_) => m,
        }
    }
}

pub open spec fn fetch_views(results: Seq<(String, Result<String, String>)>) -> Seq<
    (Seq<char>, Result<Seq<char>, Seq<char>>),
> {
    results.map_values(
        |r: (String, Result<String, String>)|
            (
                r.0@,
                match r.1 {
                    Ok(c) => Ok::<Seq<char>, Seq<char>>(c@),
                    Err(e) => Err::<Seq<char>, Seq<char>>(e@),
                },
            ),
    )
}

/// Builds the cache from the results of the fetches.
pub fn cache_from_fetches(results: Vec<(String, Result<String, String>)>) -> (c: UrlCache)
    ensures
        c.wf(),
        c@ == cache_of_fetches(fetch_views(results@)),
{
    let mut c = UrlCache::new();
    let ghost rv = fetch_views(results@);
    let mut i: usize = 0;
    while i < results.len()
        invariant
            i <= results@.len(),
            rv == fetch_views(results@),
            c.wf(),
            c@ == cache_of_fetches(rv.take(i as int)),
        decreases results.len() - i,
    {
        assert(rv.take(i + 1).drop_last() =~= rv.take(i as int));
        assert(rv.take(i + 1).last() == rv[i as int]);
        let (url, result) = &results[i];
        match result {
            Ok(content) => c.insert(url.clone(), content.clone()),
            Err(_) => {},
        }
        i += 1;
    }
    assert(rv.take(results.len() as int) =~= rv);
    c
}

// ---------------------------------------------------------------------------
// Which links to fetch
// ---------------------------------------------------------------------------

/// The links of each human message, one after another.
pub open spec fn human_links(msgs: Seq<MessageView>) -> Seq<Seq<char>>
    decreases msgs.len(),
{
    if msgs.len() == 0 {
        Seq::empty()
    } else {
        human_links(msgs.drop_last()) + if msgs.last().sender_type == "human"@ {
            urls_in(msgs.last().content)
        } else {
            Seq::empty()
        }
    }
}

pub open spec fn message_views(msgs: Seq<Message>) -> Seq<MessageView> {
    msgs.map_values(|m: Message| m@)
}

/// The links to fetch for a conversation: those in the human messages, in order of first
/// occurrence, each once.
pub fn urls_to_fetch(messages: &[Message]) -> (urls: Vec<String>)
    ensures
        views(urls@) == dedup(human_links(message_views(messages@))),
{
    let ghost mv = message_views(messages@);
    let mut found: Vec<Vec<char>> = Vec::new();
    let ghost mut links: Seq<Seq<char>> = Seq::empty();
    let mut i: usize = 0;
    while i < messages.len()
        invariant
            i <= messages@.len(),
            mv == message_views(messages@),
            links == human_links(mv.take(i as int)),
            char_views(found@) == dedup(links),
        decreases messages.len() - i,
    {
        assert(mv.take(i + 1).drop_last() =~= mv.take(i as int));
        assert(mv.take(i + 1).last() == messages@[i as int]@);
        let msg = &messages[i];
        if msg.sender_type.eq(&String::from_str("human")) {
            let us = extract_urls(msg.content.as_str());
            let mut k: usize = 0;
            let ghost base = links;
            while k < us.len()
                invariant
                    k <= us@.len(),
                    links == base + views(us@).take(k as int),
                    char_views(found@) == dedup(links),
                decreases us.len() - k,
            {
                let u = chars_of(us[k].as_str());
                let ghost prev = links;
                proof {
                    links = links.push(u@);
                    assert(base + views(us@).take(k + 1) =~= links);
                    assert(links.drop_last() =~= prev);
                }
                if !contains_link(&found, &u) {
                    found.push(u);
                    assert(char_views(found@) =~= dedup(prev).push(u@));
                }
                k += 1;
            }
            assert(views(us@).take(us@.len() as int) =~= views(us@));
        } else {
            assert(links + Seq::<Seq<char>>::empty() =~= links);
        }
        proof {
            reveal_strlit("human");
        }
        i += 1;
    }
    assert(mv.take(messages@.len() as int) =~= mv);
    let mut urls: Vec<String> = Vec::new();
    let mut k: usize = 0;
    while k < found.len()
        invariant
            k <= found.len(),
            views(urls@) == char_views(found@).take(k as int),
        decreases found.len() - k,
    {
        let s = string_of(found[k].as_slice());
        let ghost before = urls@;
        urls.push(s);
        assert(views(urls@) =~= views(before).push(s@));
        k += 1;
        assert(views(urls@) =~= char_views(found@).take(k as int));
    }
    assert(char_views(found@).take(found.len() as int) =~= char_views(found@));
    urls
}

fn contains_link(list: &Vec<Vec<char>>, x: &Vec<char>) -> (r: bool)
    ensures
        r == char_views(list@).contains(x@),
{
    let mut i: usize = 0;
    while i < list.len()
        invariant
            i <= list.len(),
            forall|j: int| 0 <= j < i ==> list@[j]@ != x@,
        decreases list.len() - i,
    {
        if chars_eq(&list[i], x) {
            assert(char_views(list@)[i as int] == x@);
            return true;
        }
        i += 1;
    }
    assert forall|j: int| 0 <= j < char_views(list@).len() implies char_views(list@)[j] != x@ by {
        assert(char_views(list@)[j] == list@[j]@);
    }
    false
}

// ---------------------------------------------------------------------------
// What a fetched page becomes
// ---------------------------------------------------------------------------

/// The largest body read from a page, in bytes.
pub const MAX_PAGE_BYTES: usize = 2097152;

/// The largest page text kept, in characters (beyond it the first this many characters are
/// kept).
pub const MAX_PAGE_TEXT: usize = 5000;

/// The text kept of a page: as rendered when it has at most 5000 characters, otherwise its
/// first 5000 characters and `...[truncated]`.
pub open spec fn page_excerpt(text: Seq<char>) -> Seq<char> {
    if text.len() > MAX_PAGE_TEXT {
        text.take(MAX_PAGE_TEXT as int) + "...[truncated]"@
    } else {
        text
    }
}

/// What a successfully fetched body gives: an error when it is larger than 2 MiB or is not
/// HTML that renders; otherwise the excerpt of its text rendered 80 columns wide.
pub open spec fn page_result(url: Seq<char>, body: Seq<u8>) -> Result<Seq<char>, Seq<char>> {
    if body.len() > MAX_PAGE_BYTES {
        Err("Response too large from "@ + url + " ("@ + decimal(body.len()) + " bytes)"@)
    } else {
        match html_text(body, 80) {
            Ok(t) => Ok(page_excerpt(t)),
            Err(e) => Err("Failed to parse HTML from "@ + url + ": "@ + e),
        }
    }
}

/// Turns the body of a fetched page into the text given to the bots.
pub fn page_text(url: &str, body: &[u8]) -> (r: Result<String, String>)
    ensures
        match (r, page_result(url@, body@)) {
            (Ok(a), Ok(b)) => a@ == b,
            (Err(a), Err(b)) => a@ == b,
            _ => false,
        },
{
    if body.len() > MAX_PAGE_BYTES {
        let mut m = String::from_str("Response too large from ");
        m.append(url);
        m.append(" (");
        m.append(decimal_string(body.len() as u64).as_str());
        m.append(" bytes)");
        return Err(m);
    }
    match html_to_text(body, 80) {
        Ok(text) => {
            let cs = chars_of(text.as_str());
            if cs.len() > MAX_PAGE_TEXT {
                let kept = slice_chars(&cs, 0, MAX_PAGE_TEXT);
                assert(kept@ =~= text@.take(MAX_PAGE_TEXT as int));
                let mut r = string_of(kept.as_slice());
                r.append("...[truncated]");
                Ok(r)
            } else {
                Ok(text)
            }
        },
        Err(e) => {
            let mut m = String::from_str("Failed to parse HTML from ");
            m.append(url);
            m.append(": ");
            m.append(e.as_str());
            Err(m)
        },
    }
}

/// The error for a page answered with a status that is not a success.
pub fn status_error(url: &str, status: &str) -> (m: String)
    ensures
        m@ == "HTTP "@ + status@ + " fetching "@ + url@,
{
    let mut m = String::from_str("HTTP ");
    m.append(status);
    m.append(" fetching ");
    m.append(url);
    m
}

/// The cache holds the text of exactly the links whose fetch succeeded (the links being
/// distinct, as `urls_to_fetch` gives them): a failed fetch leaves nothing behind.
pub proof fn lemma_cache_holds_successes(results: Seq<(Seq<char>, Result<Seq<char>, Seq<char>>)>)
    requires
        forall|i: int, j: int| 0 <= i < j < results.len() ==> results[i].0 != results[j].0,
    ensures
        forall|i: int|
            0 <= i < results.len() ==> match (#[trigger] results[i]).1 {
                Ok(c) => cache_of_fetches(results).contains_key(results[i].0)
                    && cache_of_fetches(results)[results[i].0] == c,
                Err(_) => !cache_of_fetches(results).contains_key(results[i].0),
            },
        forall|u: Seq<char>|
            #[trigger] cache_of_fetches(results).contains_key(u) ==> exists|i: int|
                0 <= i < results.len() && results[i].0 == u,
    decreases results.len(),
{
    if results.len() > 0 {
        let d = results.drop_last();
        assert forall|i: int, j: int| 0 <= i < j < d.len() implies d[i].0 != d[j].0 by {
            assert(d[i] == results[i] && d[j] == results[j]);
        }
        lemma_cache_holds_successes(d);
        let m = cache_of_fetches(d);
        let last = results.last();
        assert forall|i: int| 0 <= i < d.len() implies results[i].0 != last.0 by {
            assert(d[i] == results[i]);
        }
        assert forall|i: int| 0 <= i < results.len() implies match (#[trigger] results[i]).1 {
            Ok(c) => cache_of_fetches(results).contains_key(results[i].0)
                && cache_of_fetches(results)[results[i].0] == c,
            Err(_) => !cache_of_fetches(results).contains_key(results[i].0),
        } by {
            if i < results.len() - 1 {
                assert(d[i] == results[i]);
            }
        }
        assert forall|u: Seq<char>| #[trigger] cache_of_fetches(results).contains_key(u) implies exists|i: int|
            0 <= i < results.len() && results[i].0 == u by {
            if u == last.0 {
                assert(results[results.len() - 1].0 == u);
            } else {
                assert(m.contains_key(u));
                let i = choose|i: int| 0 <= i < d.len() && d[i].0 == u;
                assert(results[i] == d[i]);
            }
        }
    }
}

/// A page's text is kept whole when it has at most 5000 characters. A longer one keeps
/// exactly its first 5000 characters, in order, followed by "...[truncated]": the excerpt
/// begins with the beginning of the page.
pub proof fn lemma_excerpt_keeps_the_beginning(text: Seq<char>)
    ensures
        text.len() <= 5000 ==> page_excerpt(text) == text,
        text.len() > 5000 ==> {
            &&& page_excerpt(text).len() >= 5000
            &&& forall|i: int| 0 <= i < 5000 ==> #[trigger] page_excerpt(text)[i] == text[i]
            &&& page_excerpt(text).skip(5000) == "...[truncated]"@
        },
{
    if text.len() > 5000 {
        assert(page_excerpt(text).skip(5000) =~= "...[truncated]"@);
    }
}

/// A body of more than 2 MiB (2097152 bytes) is refused whatever it holds; a smaller one that
/// renders gives the excerpt of its rendered text, and one that does not render is refused.
pub proof fn lemma_page_result(url: Seq<char>, body: Seq<u8>)
    ensures
        body.len() > 2097152 ==> page_result(url, body) is Err,
        body.len() <= 2097152 ==> match html_text(body, 80) {
            Ok(t) => page_result(url, body) == Ok::<Seq<char>, Seq<char>>(page_excerpt(t)),
            Err(_) => page_result(url, body) is Err,
        },
{
}

/// The links fetched for a conversation are exactly the links of its human messages: a link
/// is fetched when, and only when, some human message holds it; each is fetched once.
pub proof fn lemma_links_of_human_messages(msgs: Seq<MessageView>)
    ensures
        dedup(human_links(msgs)).no_duplicates(),
        forall|u: Seq<char>|
            dedup(human_links(msgs)).contains(u) <==> exists|i: int|
                0 <= i < msgs.len() && msgs[i].sender_type == "human"@ && (#[trigger] urls_in(msgs[i].content)).contains(u),
    decreases msgs.len(),
{
    crate::urls::lemma_dedup(human_links(msgs));
    if msgs.len() > 0 {
        lemma_links_of_human_messages(msgs.drop_last());
        let init = msgs.drop_last();
        crate::urls::lemma_dedup(human_links(init));
        let tail = if msgs.last().sender_type == "human"@ {
            urls_in(msgs.last().content)
        } else {
            Seq::<Seq<char>>::empty()
        };
        assert(human_links(msgs) == human_links(init) + tail);
        assert forall|u: Seq<char>|
            dedup(human_links(msgs)).contains(u) <==> exists|i: int|
                0 <= i < msgs.len() && msgs[i].sender_type == "human"@ && (#[trigger] urls_in(msgs[i].content)).contains(u) by {
            if human_links(msgs).contains(u) {
                let k = choose|k: int| 0 <= k < human_links(msgs).len() && human_links(msgs)[k] == u;
                if k < human_links(init).len() {
                    assert(human_links(init)[k] == u);
                    assert(human_links(init).contains(u));
                    assert(dedup(human_links(init)).contains(u));
                    let i = choose|i: int|
                        0 <= i < init.len() && init[i].sender_type == "human"@ && (#[trigger] urls_in(init[i].content)).contains(u);
                    assert(msgs[i] == init[i]);
                } else {
                    assert(tail[k - human_links(init).len()] == u);
                    assert(msgs[msgs.len() - 1] == msgs.last());
                    assert(tail.len() > 0);
                    assert(urls_in(msgs[msgs.len() - 1].content).contains(u));
                }
            }
            if exists|i: int|
                0 <= i < msgs.len() && msgs[i].sender_type == "human"@ && (#[trigger] urls_in(msgs[i].content)).contains(u) {
                let i = choose|i: int|
                    0 <= i < msgs.len() && msgs[i].sender_type == "human"@ && (#[trigger] urls_in(msgs[i].content)).contains(u);
                if i < msgs.len() - 1 {
                    assert(init[i] == msgs[i]);
                    assert(dedup(human_links(init)).contains(u));
                    assert(human_links(init).contains(u));
                    let k = choose|k: int| 0 <= k < human_links(init).len() && human_links(init)[k] == u;
                    assert(human_links(msgs)[k] == u);
                } else {
                    assert(msgs[i] == msgs.last());
                    assert(tail.contains(u));
                    let k = choose|k: int| 0 <= k < tail.len() && tail[k] == u;
                    assert(human_links(msgs)[human_links(init).len() + k] == u);
                }
            }
        }
    }
}

} // verus!
