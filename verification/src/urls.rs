use vstd::prelude::*;

use crate::text::{chars_eq, chars_of, starts_with, string_of};

verus! {

/// What a link in a message looks like: `http://` or `https://` followed by characters that are
/// neither whitespace nor one of `< > [ ] " ' { }`.
pub const URL_PATTERN: &'static str = "https?://[^\\s<>\\[\\]\"'{}]+";

/// The texts that `regex::Regex::find_iter` yields, in order, for the regular expression
/// `pattern` over `text`; or the message of the error that `regex::Regex::new` gives for `pattern`.
pub uninterp spec fn regex_find_all(pattern: Seq<char>, text: Seq<char>) -> Result<
    Seq<Seq<char>>,
    Seq<char>,
>;

/// The views of a list of strings.
pub open spec fn views(v: Seq<String>) -> Seq<Seq<char>> {
    v.map_values(|s: String| s@)
}

/// The views of a list of character vectors.
pub open spec fn char_views(v: Seq<Vec<char>>) -> Seq<Seq<char>> {
    v.map_values(|s: Vec<char>| s@)
}

/// Compiles `pattern` with `regex::Regex::new` and collects the texts of
/// `regex::Regex::find_iter` over `text`. Claimed: the result is `regex_find_all` of the two
/// arguments (what the regex crate computes is not restated here).
#[verifier::external_body]
fn find_all_matches(pattern: &str, text: &str) -> (r: Result<Vec<String>, String>)
    ensures
        match r {
            Ok(ms) => regex_find_all(pattern@, text@) == Ok::<Seq<Seq<char>>, Seq<char>>(
                views(ms@),
            ),
            Err(e) => regex_find_all(pattern@, text@) == Err::<Seq<Seq<char>>, Seq<char>>(e@),
        },
{
    match regex::Regex::new(pattern) {
        Ok(re) => Ok(re.find_iter(text).map(|m| m.as_str().to_string()).collect()),
        Err(e) => Err(e.to_string()),
    }
}

/// Punctuation that is taken off the end of a link when it trails it.
pub open spec fn is_trailing_punct(c: char) -> bool {
    c == '.' || c == ',' || c == ';' || c == ':' || c == '!' || c == '?' || c == ')'
}

/// How many times `c` occurs in `s`.
pub open spec fn count_char(s: Seq<char>, c: char) -> nat
    decreases s.len(),
{
    if s.len() == 0 {
        0
    } else {
        count_char(s.drop_last(), c) + if s.last() == c {
            1nat
        } else {
            0nat
        }
    }
}

/// A matched link without the trailing punctuation that is unlikely to belong to it. A closing
/// parenthesis stays when the link holds at least as many `(` as `)` (as Wikipedia links do).
pub open spec fn strip_trailing_punct(url: Seq<char>) -> Seq<char>
    decreases url.len(),
{
    if url.len() > 0 && is_trailing_punct(url.last()) {
        if url.last() == ')' && count_char(url, '(') >= count_char(url, ')') {
            url
        } else {
            strip_trailing_punct(url.drop_last())
        }
    } else {
        url
    }
}

/// The elements of `s` in order of first occurrence, each once.
pub open spec fn dedup(s: Seq<Seq<char>>) -> Seq<Seq<char>>
    decreases s.len(),
{
    if s.len() == 0 {
        Seq::empty()
    } else {
        let d = dedup(s.drop_last());
        if d.contains(s.last()) {
            d
        } else {
            d.push(s.last())
        }
    }
}

/// The links of a message, given the raw matches of the link pattern in it.
pub open spec fn urls_of_matches(matches: Seq<Seq<char>>) -> Seq<Seq<char>> {
    dedup(matches.map_values(|m: Seq<char>| strip_trailing_punct(m)))
}

/// The links that `extract_urls` gives for `text`.
pub open spec fn urls_in(text: Seq<char>) -> Seq<Seq<char>> {
    match regex_find_all(URL_PATTERN@, text) {
        Ok(ms) => urls_of_matches(ms),
        Err(_) => Seq::empty(),
    }
}

fn count_in(v: &Vec<char>, c: char) -> (n: usize)
    ensures
        n == count_char(v@, c),
{
    let mut n: usize = 0;
    let mut i: usize = 0;
    while i < v.len()
        invariant
            i <= v.len(),
            n == count_char(v@.take(i as int), c),
            n <= i,
        decreases v.len() - i,
    {
        assert(v@.take(i + 1).drop_last() =~= v@.take(i as int));
        if v[i] == c {
            n += 1;
        }
        i += 1;
    }
    assert(v@.take(v.len() as int) =~= v@);
    n
}

fn is_trailing_punct_char(c: char) -> (r: bool)
    ensures
        r == is_trailing_punct(c),
{
    c == '.' || c == ',' || c == ';' || c == ':' || c == '!' || c == '?' || c == ')'
}

/// Takes trailing punctuation off a matched link (see `strip_trailing_punct`).
pub fn strip_trailing(url: &Vec<char>) -> (r: Vec<char>)
    ensures
        r@ == strip_trailing_punct(url@),
{
    let mut u = url.clone();
    assert(u@ == url@);
    loop
        invariant
            strip_trailing_punct(u@) == strip_trailing_punct(url@),
        ensures
            u@ == strip_trailing_punct(url@),
        decreases u.len(),
    {
        if u.len() == 0 || !is_trailing_punct_char(u[u.len() - 1]) {
            break;
        }
        let last = u[u.len() - 1];
        if last == ')' {
            let open = count_in(&u, '(');
            let close = count_in(&u, ')');
            if open >= close {
                break;
            }
        }
        let ghost before = u@;
        u.pop();
        assert(u@ =~= before.drop_last());
    }
    u
}

fn list_contains(list: &Vec<Vec<char>>, x: &Vec<char>) -> (r: bool)
    ensures
        r == char_views(list@).contains(x@),
{
    let mut i: usize = 0;
    while i < list.len()
        invariant
            i <= list.len(),
            forall|j: int| 0 <= j < i ==> list@[j]@ != x@,
        decreases list.len() - i,
    {
        if chars_eq(&list[i], x) {
            assert(char_views(list@)[i as int] == x@);
            return true;
        }
        i += 1;
    }
    assert forall|j: int| 0 <= j < char_views(list@).len() implies char_views(list@)[j] != x@ by {
        assert(char_views(list@)[j] == list@[j]@);
    }
    false
}

/// The links among the raw matches of the link pattern: each without trailing punctuation,
/// in order of first occurrence, each once.
pub fn urls_from_matches(matches: &Vec<String>) -> (urls: Vec<String>)
    ensures
        views(urls@) == urls_of_matches(views(matches@)),
{
    let ghost stripped = views(matches@).map_values(|m: Seq<char>| strip_trailing_punct(m));
    let mut found: Vec<Vec<char>> = Vec::new();
    let mut i: usize = 0;
    while i < matches.len()
        invariant
            i <= matches.len(),
            stripped == views(matches@).map_values(|m: Seq<char>| strip_trailing_punct(m)),
            char_views(found@) == dedup(stripped.take(i as int)),
        decreases matches.len() - i,
    {
        let cs = chars_of(matches[i].as_str());
        let u = strip_trailing(&cs);
        assert(stripped.take(i + 1).drop_last() =~= stripped.take(i as int));
        assert(stripped.take(i + 1).last() == u@);
        if !list_contains(&found, &u) {
            found.push(u);
            assert(char_views(found@) =~= dedup(stripped.take(i + 1)));
        }
        i += 1;
    }
    assert(stripped.take(matches.len() as int) =~= stripped);
    let mut urls: Vec<String> = Vec::new();
    let mut k: usize = 0;
    while k < found.len()
        invariant
            k <= found.len(),
            views(urls@) == char_views(found@).take(k as int),
        decreases found.len() - k,
    {
        let s = string_of(found[k].as_slice());
        assert(s@ == char_views(found@)[k as int]);
        let ghost before = urls@;
        urls.push(s);
        assert(urls@ == before.push(s));
        assert(views(urls@) =~= views(before).push(s@));
        k += 1;
        assert(views(urls@) =~= char_views(found@).take(k as int));
    }
    assert(char_views(found@).take(found.len() as int) =~= char_views(found@));
    urls
}

/// Extracts the unique links in a text, in order of first occurrence, without trailing
/// punctuation that is unlikely to be part of them.
pub fn extract_urls(text: &str) -> (urls: Vec<String>)
    ensures
        views(urls@) == urls_in(text@),
{
    match find_all_matches(URL_PATTERN, text) {
        Ok(ms) => urls_from_matches(&ms),
        Err(_) => Vec::new(),
    }
}

// ---------------------------------------------------------------------------
// Laws
// ---------------------------------------------------------------------------

/// `dedup` keeps exactly the elements of its input, each once.
pub proof fn lemma_dedup(s: Seq<Seq<char>>)
    ensures
        dedup(s).no_duplicates(),
        forall|x: Seq<char>| dedup(s).contains(x) <==> s.contains(x),
    decreases s.len(),
{
    if s.len() > 0 {
        lemma_dedup(s.drop_last());
        let d = dedup(s.drop_last());
        assert forall|x: Seq<char>| dedup(s).contains(x) <==> s.contains(x) by {
            if s.contains(x) && x != s.last() {
                let k = choose|k: int| 0 <= k < s.len() && s[k] == x;
                assert(s.drop_last()[k] == x);
            }
            if s.drop_last().contains(x) {
                let k = choose|k: int| 0 <= k < s.drop_last().len() && s.drop_last()[k] == x;
                assert(s[k] == x);
            }
            if d.contains(s.last()) {
            } else {
                if d.push(s.last()).contains(x) && x != s.last() {
                    let k = choose|k: int| 0 <= k < d.push(s.last()).len() && d.push(s.last())[k] == x;
                    assert(d[k] == x);
                }
                if d.contains(x) {
                    let k = choose|k: int| 0 <= k < d.len() && d[k] == x;
                    assert(d.push(s.last())[k] == x);
                }
                assert(d.push(s.last())[d.len() as int] == s.last());
            }
        }
    }
}

/// The links found in a text are distinct, and they are exactly the matches of the link
/// pattern with trailing punctuation taken off.
pub proof fn lemma_extracted_urls_distinct(matches: Seq<Seq<char>>)
    ensures
        urls_of_matches(matches).no_duplicates(),
        forall|u: Seq<char>|
            urls_of_matches(matches).contains(u) <==> exists|i: int|
                0 <= i < matches.len() && strip_trailing_punct(matches[i]) == u,
{
    let stripped = matches.map_values(|m: Seq<char>| strip_trailing_punct(m));
    lemma_dedup(stripped);
    assert forall|u: Seq<char>|
        urls_of_matches(matches).contains(u) <==> exists|i: int|
            0 <= i < matches.len() && strip_trailing_punct(matches[i]) == u by {
        if stripped.contains(u) {
            let k = choose|k: int| 0 <= k < stripped.len() && stripped[k] == u;
            assert(strip_trailing_punct(matches[k]) == u);
        }
        if exists|i: int| 0 <= i < matches.len() && strip_trailing_punct(matches[i]) == u {
            let i = choose|i: int| 0 <= i < matches.len() && strip_trailing_punct(matches[i]) == u;
            assert(stripped[i] == u);
        }
    }
}

/// A stripped link never ends with punctuation that would be taken off, and it is a prefix of
/// the match it came from.
pub proof fn lemma_strip_trailing_punct(url: Seq<char>)
    ensures
        starts_with(url, strip_trailing_punct(url)),
        strip_trailing_punct(url).len() > 0 && is_trailing_punct(strip_trailing_punct(url).last())
            ==> strip_trailing_punct(url).last() == ')' && count_char(
            strip_trailing_punct(url),
            '(',
        ) >= count_char(strip_trailing_punct(url), ')'),
        strip_trailing_punct(strip_trailing_punct(url)) == strip_trailing_punct(url),
    decreases url.len(),
{
    if url.len() > 0 && is_trailing_punct(url.last()) {
        if url.last() == ')' && count_char(url, '(') >= count_char(url, ')') {
            assert(url.subrange(0, url.len() as int) =~= url);
        } else {
            lemma_strip_trailing_punct(url.drop_last());
            let r = strip_trailing_punct(url.drop_last());
            assert(url.subrange(0, r.len() as int) =~= url.drop_last().subrange(0, r.len() as int));
        }
    } else {
        assert(url.subrange(0, url.len() as int) =~= url);
    }
}

/// A stripped link never ends with '.', ',', ';', ':', '!' or '?', and ends with ')' only when
/// it holds at least as many '(' as ')'. It is a prefix of the link, and each character taken
/// off was one of those, taken off while it ended the link: a ')' only while the link up to it
/// held more ')' than '('.
pub proof fn lemma_stripped_link_end(url: Seq<char>)
    ensures
        ({
            let r = strip_trailing_punct(url);
            &&& r.len() > 0 ==> r.last() != '.' && r.last() != ',' && r.last() != ';' && r.last() != ':'
                && r.last() != '!' && r.last() != '?'
            &&& r.len() > 0 && r.last() == ')' ==> count_char(r, '(') >= count_char(r, ')')
            &&& r.len() <= url.len()
            &&& url.take(r.len() as int) == r
            &&& forall|k: int|
                r.len() < k <= url.len() ==> {
                    let c = #[trigger] url[k - 1];
                    &&& c == '.' || c == ',' || c == ';' || c == ':' || c == '!' || c == '?' || c == ')'
                    &&& c == ')' ==> count_char(url.take(k), '(') < count_char(url.take(k), ')')
                }
        }),
    decreases url.len(),
{
    if url.len() > 0 && is_trailing_punct(url.last()) {
        if url.last() == ')' && count_char(url, '(') >= count_char(url, ')') {
            assert(url.take(url.len() as int) =~= url);
        } else {
            lemma_stripped_link_end(url.drop_last());
            let r = strip_trailing_punct(url.drop_last());
            assert(url.take(r.len() as int) =~= url.drop_last().take(r.len() as int));
            assert forall|k: int| r.len() < k <= url.len() implies {
                let c = #[trigger] url[k - 1];
                &&& c == '.' || c == ',' || c == ';' || c == ':' || c == '!' || c == '?' || c == ')'
                &&& c == ')' ==> count_char(url.take(k), '(') < count_char(url.take(k), ')')
            } by {
                if k < url.len() {
                    assert(url[k - 1] == url.drop_last()[k - 1]);
                    assert(url.take(k) =~= url.drop_last().take(k));
                } else {
                    assert(url.take(k) =~= url);
                }
            }
        }
    } else {
        assert(url.take(url.len() as int) =~= url);
    }
}

/// `dedup` keeps the first occurrence of each element, in the order of the input: its
/// elements stand at increasing positions of the input, each at the first position that
/// holds it.
pub proof fn lemma_dedup_first_occurrences(s: Seq<Seq<char>>)
    ensures
        exists|idx: Seq<int>|
            #![trigger idx.len()]
            {
                &&& idx.len() == dedup(s).len()
                &&& forall|i: int| 0 <= i < idx.len() ==> 0 <= #[trigger] idx[i] < s.len() && s[idx[i]] == dedup(s)[i]
                &&& forall|i: int, j: int| 0 <= i < j < idx.len() ==> idx[i] < idx[j]
                &&& forall|i: int, k: int| 0 <= i < idx.len() && 0 <= k < idx[i] ==> s[k] != dedup(s)[i]
            },
    decreases s.len(),
{
    if s.len() == 0 {
        let idx = Seq::<int>::empty();
        assert(idx.len() == dedup(s).len());
    } else {
        lemma_dedup_first_occurrences(s.drop_last());
        lemma_dedup(s.drop_last());
        let d = dedup(s.drop_last());
        let t = s.drop_last();
        let idx0 = choose|idx: Seq<int>|
            #![trigger idx.len()]
            {
                &&& idx.len() == d.len()
                &&& forall|i: int| 0 <= i < idx.len() ==> 0 <= #[trigger] idx[i] < t.len() && t[idx[i]] == d[i]
                &&& forall|i: int, j: int| 0 <= i < j < idx.len() ==> idx[i] < idx[j]
                &&& forall|i: int, k: int| 0 <= i < idx.len() && 0 <= k < idx[i] ==> t[k] != d[i]
            };
        if d.contains(s.last()) {
            assert(idx0.len() == dedup(s).len());
            assert forall|i: int, k: int| 0 <= i < idx0.len() && 0 <= k < idx0[i] implies s[k] != dedup(s)[i] by {
                assert(t[k] == s[k]);
            }
        } else {
            let idx = idx0.push(s.len() - 1);
            assert(dedup(s) == d.push(s.last()));
            assert forall|i: int| 0 <= i < idx.len() implies 0 <= #[trigger] idx[i] < s.len() && s[idx[i]] == dedup(s)[i] by {
                if i < idx0.len() {
                    assert(t[idx0[i]] == s[idx0[i]]);
                }
            }
            assert forall|i: int, k: int| 0 <= i < idx.len() && 0 <= k < idx[i] implies s[k] != dedup(s)[i] by {
                if i < idx0.len() {
                    assert(t[k] == s[k]);
                } else {
                    assert(t[k] == s[k]);
                    if s[k] == s.last() {
                        assert(t.contains(s.last()));
                    }
                }
            }
            assert(idx.len() == dedup(s).len());
        }
    }
}

} // verus!
