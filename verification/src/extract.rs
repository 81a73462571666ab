//! The content extractor: three independent strategies that scan a page for
//! image links and detail-page ids. Matching is done by regular expressions;
//! what is made of the matches is decided here.

use vstd::prelude::*;
use crate::text::{text_of, texts};

verus! {

/// Absolute links to `.jpg` images, up to a quote, blank or `>`.
pub const DIRECT_IMAGE_PATTERN: &'static str = r#"https?://[^"'\s>]+\.jpg[^"'\s>]*"#;

/// Detail pages by their path; group 1 is the numeric id.
pub const DETAIL_ID_PATTERN: &'static str = r#"[\\/]light[\\/]([0-9]+)\.html"#;

/// A list attribute; group 1 holds ids divided by commas.
pub const KEY_LIST_PATTERN: &'static str = r#"data-key\s*=\s*["']([0-9,]+)["']"#;

/// Image attributes that point below the upload directory; group 1 is the
/// path.
pub const UPLOAD_PATH_PATTERN: &'static str =
    r#"(?:src=|data-src=)\s*["']?(/Uploads/image/[^"'\s>]+\.jpg[^"'\s>]*)"#;

/// The origin against which upload paths are resolved.
pub const SITE_ORIGIN: &'static str = "https://www.dpm.org.cn";

/// What `regex::Regex::new(pattern)` followed by `captures_iter(text)` yields:
/// `None` where the pattern does not compile; otherwise, for each match in
/// the order of the text, the part of it that capture group `group` matched,
/// or `None` where that group took no part in the match.
pub uninterp spec fn regex_captures(pattern: Seq<char>, group: nat, text: Seq<char>) -> Option<
    Seq<Option<Seq<char>>>,
>;

/// The views of a sequence of optional strings, in the same order.
pub open spec fn optional_texts(items: Seq<Option<String>>) -> Seq<Option<Seq<char>>> {
    items.map_values(|item: Option<String>| text_of(item))
}

/// What a capture run holds.
pub open spec fn captures_view(found: Option<Vec<Option<String>>>) -> Option<Seq<Option<Seq<char>>>> {
    match found {
        Some(hits) => Some(optional_texts(hits@)),
        None => None,
    }
}

/// Compiles `pattern` with `regex::Regex::new` and walks the matches in
/// `text` with `Regex::captures_iter`, taking from each match what
/// `Captures::get(group)` gives, as a string of its own. The contract gives
/// that result its name: it depends on the three arguments and on nothing
/// else.
#[verifier::external_body]
fn capture_all(pattern: &str, group: usize, text: &str) -> (found: Option<Vec<Option<String>>>)
    ensures
        captures_view(found) == regex_captures(pattern@, group as nat, text@),
{
    let re = regex::Regex::new(pattern).ok()?;
    Some(re.captures_iter(text).map(|c| c.get(group).map(|m| m.as_str().to_string())).collect())
}

/// The matches in which the group took part, in their order.
pub open spec fn present(hits: Seq<Option<Seq<char>>>) -> Seq<Seq<char>>
    decreases hits.len(),
{
    if hits.len() == 0 {
        Seq::empty()
    } else {
        match hits.last() {
            Some(hit) => present(hits.drop_last()).push(hit),
            None => present(hits.drop_last()),
        }
    }
}

/// The items without repetitions: each where it first occurs.
pub open spec fn distinct(items: Seq<Seq<char>>) -> Seq<Seq<char>>
    decreases items.len(),
{
    if items.len() == 0 {
        Seq::empty()
    } else {
        let front = distinct(items.drop_last());
        if front.contains(items.last()) {
            front
        } else {
            front.push(items.last())
        }
    }
}

/// The non-empty pieces into which `sep` divides `text`, in their order.
pub open spec fn fields(text: Seq<char>, sep: char) -> Seq<Seq<char>>
    decreases text.len(),
{
    if text.len() == 0 {
        Seq::empty()
    } else {
        let init = text.drop_last();
        let front = fields(init, sep);
        if text.last() == sep {
            front
        } else if init.len() == 0 || init.last() == sep {
            front.push(seq![text.last()])
        } else {
            front.drop_last().push(front.last().push(text.last()))
        }
    }
}

/// The pieces of every item of `lists`, one list after the other.
pub open spec fn all_fields(lists: Seq<Seq<char>>, sep: char) -> Seq<Seq<char>>
    decreases lists.len(),
{
    if lists.len() == 0 {
        Seq::empty()
    } else {
        all_fields(lists.drop_last(), sep) + fields(lists.last(), sep)
    }
}

/// Each item with `prefix` in front of it.
pub open spec fn prefixed(prefix: Seq<char>, items: Seq<Seq<char>>) -> Seq<Seq<char>> {
    items.map_values(|item: Seq<char>| prefix + item)
}

/// The direct-image strategy on the matches of `DIRECT_IMAGE_PATTERN`: every
/// link once. A pattern that did not compile gives nothing.
pub open spec fn jpg_urls(found: Option<Seq<Option<Seq<char>>>>) -> Seq<Seq<char>> {
    match found {
        Some(hits) => distinct(present(hits)),
        None => Seq::empty(),
    }
}

/// The detail-id strategy on the matches of `DETAIL_ID_PATTERN` and of
/// `KEY_LIST_PATTERN`: the ids of the first, then the ids listed in the
/// second, empty ones left out, every id once.
pub open spec fn light_ids(
    paths: Option<Seq<Option<Seq<char>>>>,
    keys: Option<Seq<Option<Seq<char>>>>,
) -> Seq<Seq<char>> {
    let from_paths = match paths {
        Some(hits) => present(hits),
        None => Seq::empty(),
    };
    let from_keys = match keys {
        Some(hits) => all_fields(present(hits), ','),
        None => Seq::empty(),
    };
    distinct(from_paths + from_keys)
}

/// The upload-path strategy on the matches of `UPLOAD_PATH_PATTERN`: every
/// path made absolute against the site's origin, every link once.
pub open spec fn upload_urls(found: Option<Seq<Option<Seq<char>>>>) -> Seq<Seq<char>> {
    match found {
        Some(hits) => distinct(prefixed(SITE_ORIGIN@, present(hits))),
        None => Seq::empty(),
    }
}

/// The image links that the direct-image strategy finds in `html`.
pub open spec fn page_images(html: Seq<char>) -> Seq<Seq<char>> {
    jpg_urls(regex_captures(DIRECT_IMAGE_PATTERN@, 0, html))
}

/// The detail ids that the detail-id strategy finds in `html`.
pub open spec fn page_ids(html: Seq<char>) -> Seq<Seq<char>> {
    light_ids(regex_captures(DETAIL_ID_PATTERN@, 1, html), regex_captures(KEY_LIST_PATTERN@, 1, html))
}

/// The image links that the upload-path strategy finds in `html`.
pub open spec fn page_uploads(html: Seq<char>) -> Seq<Seq<char>> {
    upload_urls(regex_captures(UPLOAD_PATH_PATTERN@, 1, html))
}

/// Whether `item` is among `list`.
fn contains_text(list: &Vec<String>, item: &String) -> (found: bool)
    ensures
        found == texts(list@).contains(item@),
{
    let mut i: usize = 0;
    while i < list.len()
        invariant
            i <= list.len(),
            forall|k: int| 0 <= k < i ==> texts(list@)[k] != item@,
        decreases list.len() - i,
    {
        if list[i] == *item {
            assert(texts(list@)[i as int] == item@);
            return true;
        }
        i = i + 1;
    }
    false
}

/// The items without repetitions, each where it first occurs.
pub fn unique(items: &Vec<String>) -> (out: Vec<String>)
    ensures
        texts(out@) == distinct(texts(items@)),
{
    let mut out: Vec<String> = Vec::new();
    let mut i: usize = 0;
    while i < items.len()
        invariant
            i <= items.len(),
            texts(out@) == distinct(texts(items@).take(i as int)),
        decreases items.len() - i,
    {
        assert(texts(items@).take(i + 1).drop_last() =~= texts(items@).take(i as int));
        if !contains_text(&out, &items[i]) {
            out.push(items[i].clone());
        }
        i = i + 1;
    }
    assert(texts(items@).take(items.len() as int) =~= texts(items@));
    out
}

/// The matches in which the group took part, in their order.
pub fn present_texts(found: &Vec<Option<String>>) -> (out: Vec<String>)
    ensures
        texts(out@) == present(optional_texts(found@)),
{
    let mut out: Vec<String> = Vec::new();
    let mut i: usize = 0;
    while i < found.len()
        invariant
            i <= found.len(),
            texts(out@) == present(optional_texts(found@).take(i as int)),
        decreases found.len() - i,
    {
        assert(optional_texts(found@).take(i + 1).drop_last() =~= optional_texts(found@).take(i as int));
        match &found[i] {
            Some(hit) => {
                out.push(hit.clone());
            },
            None => {},
        }
        i = i + 1;
    }
    assert(optional_texts(found@).take(found.len() as int) =~= optional_texts(found@));
    out
}

/// The non-empty pieces into which `sep` divides `text`, in their order.
pub fn split_fields(text: &str, sep: char) -> (out: Vec<String>)
    ensures
        texts(out@) == fields(text@, sep),
{
    let n = text.unicode_len();
    let mut out: Vec<String> = Vec::new();
    let mut start: usize = 0;
    let mut i: usize = 0;
    while i < n
        invariant
            n == text@.len(),
            start <= i <= n,
            start < i ==> text@[i - 1] != sep && fields(text@.take(i as int), sep).len() > 0 && texts(
                out@,
            ) == fields(text@.take(i as int), sep).drop_last() && fields(
                text@.take(i as int),
                sep,
            ).last() == text@.subrange(start as int, i as int),
            start == i ==> (i == 0 || text@[i - 1] == sep) && texts(out@) == fields(
                text@.take(i as int),
                sep,
            ),
        decreases n - i,
    {
        let ghost held = texts(out@);
        assert(text@.take(i + 1).drop_last() =~= text@.take(i as int));
        if i > 0 {
            assert(text@.take(i as int).last() == text@[i - 1]);
        }
        let c = text.get_char(i);
        if c == sep {
            if start < i {
                let piece = text.substring_char(start, i);
                out.push(piece.to_owned());
                assert(texts(out@) =~= held.push(piece@));
            }
            start = i + 1;
        } else {
            if start < i {
                assert(text@.subrange(start as int, i + 1) =~= text@.subrange(start as int, i as int).push(c));
            } else {
                assert(text@.subrange(i as int, i + 1) =~= seq![c]);
            }
        }
        i = i + 1;
    }
    assert(text@.take(n as int) =~= text@);
    if start < n {
        let ghost held = texts(out@);
        let piece = text.substring_char(start, n);
        out.push(piece.to_owned());
        assert(texts(out@) =~= held.push(piece@));
    }
    out
}

/// The pieces of every item of `lists`, one list after the other.
pub fn split_all(lists: &Vec<String>, sep: char) -> (out: Vec<String>)
    ensures
        texts(out@) == all_fields(texts(lists@), sep),
{
    let mut out: Vec<String> = Vec::new();
    let mut i: usize = 0;
    while i < lists.len()
        invariant
            i <= lists.len(),
            texts(out@) == all_fields(texts(lists@).take(i as int), sep),
        decreases lists.len() - i,
    {
        assert(texts(lists@).take(i + 1).drop_last() =~= texts(lists@).take(i as int));
        let mut pieces = split_fields(lists[i].as_str(), sep);
        out.append(&mut pieces);
        i = i + 1;
    }
    assert(texts(lists@).take(lists.len() as int) =~= texts(lists@));
    out
}

/// Each item with `prefix` in front of it.
pub fn with_prefix(prefix: &str, items: &Vec<String>) -> (out: Vec<String>)
    ensures
        texts(out@) == prefixed(prefix@, texts(items@)),
{
    let mut out: Vec<String> = Vec::new();
    let mut i: usize = 0;
    while i < items.len()
        invariant
            i <= items.len(),
            out.len() == i,
            forall|k: int| 0 <= k < i ==> (#[trigger] out@[k])@ == prefix@ + items@[k]@,
        decreases items.len() - i,
    {
        let mut url = prefix.to_owned();
        url.append(items[i].as_str());
        out.push(url);
        i = i + 1;
    }
    out
}

/// The direct-image strategy on the matches that the pattern gave.
pub fn jpg_urls_from(found: &Option<Vec<Option<String>>>) -> (urls: Vec<String>)
    ensures
        texts(urls@) == jpg_urls(captures_view(*found)),
{
    match found {
        Some(hits) => {
            let links = present_texts(hits);
            unique(&links)
        },
        None => Vec::new(),
    }
}

/// The detail-id strategy on the matches that its two patterns gave.
pub fn light_ids_from(paths: &Option<Vec<Option<String>>>, keys: &Option<Vec<Option<String>>>) -> (ids:
    Vec<String>)
    ensures
        texts(ids@) == light_ids(captures_view(*paths), captures_view(*keys)),
{
    let mut all: Vec<String> = match paths {
        Some(hits) => present_texts(hits),
        None => Vec::new(),
    };
    let mut listed: Vec<String> = match keys {
        Some(hits) => {
            let lists = present_texts(hits);
            split_all(&lists, ',')
        },
        None => Vec::new(),
    };
    let ghost from_paths = texts(all@);
    let ghost from_keys = texts(listed@);
    all.append(&mut listed);
    assert(texts(all@) =~= from_paths + from_keys);
    unique(&all)
}

/// The upload-path strategy on the matches that the pattern gave.
pub fn upload_urls_from(found: &Option<Vec<Option<String>>>) -> (urls: Vec<String>)
    ensures
        texts(urls@) == upload_urls(captures_view(*found)),
{
    match found {
        Some(hits) => {
            let paths = present_texts(hits);
            let links = with_prefix(SITE_ORIGIN, &paths);
            unique(&links)
        },
        None => Vec::new(),
    }
}

/// The direct-image strategy: the absolute `.jpg` links of `html`, each once.
pub fn extract_jpg_urls(html: &str) -> (urls: Vec<String>)
    ensures
        texts(urls@) == page_images(html@),
{
    let found = capture_all(DIRECT_IMAGE_PATTERN, 0, html);
    jpg_urls_from(&found)
}

/// The detail-id strategy: the ids of the detail pages that `html` links to
/// or lists, each once.
pub fn extract_light_ids(html: &str) -> (ids: Vec<String>)
    ensures
        texts(ids@) == page_ids(html@),
{
    let paths = capture_all(DETAIL_ID_PATTERN, 1, html);
    let keys = capture_all(KEY_LIST_PATTERN, 1, html);
    light_ids_from(&paths, &keys)
}

/// The upload-path strategy: the uploaded images that `html` shows, as
/// absolute links, each once.
pub fn extract_upload_urls(html: &str) -> (urls: Vec<String>)
    ensures
        texts(urls@) == page_uploads(html@),
{
    let found = capture_all(UPLOAD_PATH_PATTERN, 1, html);
    upload_urls_from(&found)
}

/// A strategy's result is a set written as a list: it holds an item exactly
/// when the matches hold it, and holds it once.
pub proof fn lemma_distinct_is_a_set(items: Seq<Seq<char>>)
    ensures
        distinct(items).no_duplicates(),
        forall|item: Seq<char>| distinct(items).contains(item) <==> items.contains(item),
    decreases items.len(),
{
    if items.len() > 0 {
        let init = items.drop_last();
        let front = distinct(init);
        let last = items.last();
        lemma_distinct_is_a_set(init);
        assert forall|item: Seq<char>| distinct(items).contains(item) <==> items.contains(item) by {
            assert(distinct(init).contains(item) <==> init.contains(item));
            if distinct(items).contains(item) {
                let k = choose|k: int| 0 <= k < distinct(items).len() && distinct(items)[k] == item;
                if k < front.len() {
                    assert(front.contains(item));
                } else {
                    assert(item == last);
                }
            }
            if items.contains(item) {
                let j = choose|j: int| 0 <= j < items.len() && items[j] == item;
                if j < init.len() {
                    assert(init[j] == item);
                    let k = choose|k: int| 0 <= k < front.len() && front[k] == item;
                    assert(distinct(items)[k] == item);
                } else if !front.contains(last) {
                    assert(distinct(items)[front.len() as int] == item);
                }
            }
        }
    }
}

/// The pieces of a divided text are real pieces: none is empty and none holds
/// the separator. A text that holds no separator is one piece, itself.
pub proof fn lemma_fields_are_pieces(text: Seq<char>, sep: char)
    ensures
        forall|k: int|
            0 <= k < fields(text, sep).len() ==> (#[trigger] fields(text, sep)[k]).len() > 0 && !fields(
                text,
                sep,
            )[k].contains(sep),
        text.len() > 0 && !text.contains(sep) ==> fields(text, sep) == seq![text],
        text.len() > 0 && text.last() != sep ==> fields(text, sep).len() > 0,
    decreases text.len(),
{
    if text.len() > 0 {
        let init = text.drop_last();
        let front = fields(init, sep);
        let last = text.last();
        lemma_fields_are_pieces(init, sep);
        if last != sep && (init.len() == 0 || init.last() == sep) {
            assert forall|k: int| 0 <= k < fields(text, sep).len() implies (#[trigger] fields(text, sep)[k]).len()
                > 0 && !fields(text, sep)[k].contains(sep) by {
                if k < front.len() {
                    assert(fields(text, sep)[k] == front[k]);
                }
            }
        } else if last != sep {
            let grown = front.last().push(last);
            assert(!grown.contains(sep)) by {
                if grown.contains(sep) {
                    let at = choose|at: int| 0 <= at < grown.len() && grown[at] == sep;
                    assert(front.last()[at] == sep);
                }
            }
            assert forall|k: int| 0 <= k < fields(text, sep).len() implies (#[trigger] fields(text, sep)[k]).len()
                > 0 && !fields(text, sep)[k].contains(sep) by {
                if k < front.len() - 1 {
                    assert(fields(text, sep)[k] == front[k]);
                }
            }
        }
        if !text.contains(sep) {
            if init.len() == 0 {
                assert(text =~= seq![last]);
            } else {
                assert(!init.contains(sep)) by {
                    if init.contains(sep) {
                        let at = choose|at: int| 0 <= at < init.len() && init[at] == sep;
                        assert(text[at] == sep);
                    }
                }
                assert(init.push(last) =~= text);
            }
        }
    }
}

/// A page without matches gives an empty result under every strategy.
pub proof fn lemma_no_match_gives_nothing()
    ensures
        jpg_urls(Some(Seq::empty())) == Seq::<Seq<char>>::empty(),
        light_ids(Some(Seq::empty()), Some(Seq::empty())) == Seq::<Seq<char>>::empty(),
        upload_urls(Some(Seq::empty())) == Seq::<Seq<char>>::empty(),
{
}

} // verus!
