//! The branching-story format: passages in a trimmed HTML-like markup, and
//! the link markup inside passage texts.
//!
//! The grammar this library reads is deliberately small: an element is an
//! occurrence of `<` followed by its tag name, its attributes are
//! space-separated `name="value"` pairs inside the opening tag, and a
//! passage's text runs from the end of its opening tag to the next `<`.
//! Links inside a passage are `[[label]]` or `[[label-&gt;target]]`.
//! Everything is specified positionally over the character sequence, and
//! the searches are first-occurrence searches.

use vstd::prelude::*;

use vstd::pervasive::unreached;
use vstd::slice::slice_subrange;

verus! {

/// True when `pat` occurs in `s` starting at position `i`.
pub open spec fn matches_at<T>(s: Seq<T>, pat: Seq<T>, i: int) -> bool {
    0 <= i && i + pat.len() <= s.len() && s.subrange(i, i + pat.len()) == pat
}

/// The first occurrence of `pat` in `s` at or after `from`.
pub open spec fn find_at<T>(s: Seq<T>, pat: Seq<T>, from: int) -> Option<int>
    decreases s.len() - from,
    when 0 <= from && 1 <= pat.len()
{
    if from + pat.len() > s.len() {
        None
    } else if matches_at(s, pat, from) {
        Some(from)
    } else {
        find_at(s, pat, from + 1)
    }
}

/// A found occurrence lies at or after the start of the search, and fits
/// inside the text.
pub proof fn lemma_find_at_bounds<T>(s: Seq<T>, pat: Seq<T>, from: int)
    requires
        0 <= from,
        1 <= pat.len(),
    ensures
        find_at(s, pat, from) matches Some(i) ==> from <= i && i + pat.len() <= s.len()
            && matches_at(s, pat, i),
    decreases s.len() - from,
{
    if from + pat.len() <= s.len() && !matches_at(s, pat, from) {
        lemma_find_at_bounds(s, pat, from + 1);
    }
}

/// How many times `pat` occurs in `s` from `from` on, counting
/// non-overlapping occurrences left to right.
pub open spec fn count_from<T>(s: Seq<T>, pat: Seq<T>, from: int) -> nat
    decreases s.len() - from,
    when 0 <= from && pat.len() >= 1
    via count_from_decreases::<T>
{
    match find_at(s, pat, from) {
        None => 0,
        Some(i) => 1 + count_from(s, pat, i + pat.len()),
    }
}

#[via_fn]
proof fn count_from_decreases<T>(s: Seq<T>, pat: Seq<T>, from: int) {
    lemma_find_at_bounds(s, pat, from);
}

/// The position of the `n`th non-overlapping occurrence of `pat` in `s`
/// at or after `from`, counting from zero.
pub open spec fn nth_match<T>(s: Seq<T>, pat: Seq<T>, from: int, n: nat) -> Option<int>
    decreases n,
{
    match find_at(s, pat, from) {
        None => None,
        Some(i) => if n == 0 {
            Some(i)
        } else {
            nth_match(s, pat, i + pat.len(), (n - 1) as nat)
        },
    }
}

/// Whether `pat` occurs in `s` at exactly position `i`, checked character
/// by character.
fn match_at_exec(s: &str, pat: &str, i: usize) -> (r: bool)
    requires
        i + pat@.len() <= s@.len(),
        s@.len() <= usize::MAX,
    ensures
        r == matches_at(s@, pat@, i as int),
{
    let m = pat.unicode_len();
    let mut j: usize = 0;
    while j < m
        invariant
            j <= m,
            m == pat@.len(),
            i + m <= s@.len(),
            s@.len() <= usize::MAX,
            forall|k: int| 0 <= k < j ==> s@[i + k] == pat@[k],
        decreases m - j,
    {
        if s.get_char(i + j) != pat.get_char(j) {
            proof {
                if matches_at(s@, pat@, i as int) {
                    assert(s@.subrange(i as int, i + pat@.len())[j as int] == pat@[j as int]);
                }
            }
            return false;
        }
        j = j + 1;
    }
    proof {
        assert(s@.subrange(i as int, i + pat@.len()) =~= pat@);
    }
    true
}

/// The first occurrence of `pat` in `s` at or after `from`, as a position,
/// or nothing when there is none.
pub fn find_from(s: &str, pat: &str, from: usize) -> (r: Option<usize>)
    requires
        pat@.len() >= 1,
    ensures
        r matches Some(i) ==> find_at(s@, pat@, from as int) == Some(i as int) && from <= i,
        r is None ==> find_at(s@, pat@, from as int) is None,
{
    let n = s.unicode_len();
    let m = pat.unicode_len();
    if m > n || from > n - m {
        return None;
    }
    let mut i: usize = from;
    while i <= n - m
        invariant
            from <= i,
            1 <= m <= n,
            n == s@.len(),
            m == pat@.len(),
            find_at(s@, pat@, from as int) == find_at(s@, pat@, i as int),
        decreases n - i,
    {
        if match_at_exec(s, pat, i) {
            return Some(i);
        }
        proof {
            assert(find_at(s@, pat@, i as int) == find_at(s@, pat@, i + 1));
        }
        i = i + 1;
    }
    None
}

/// Whether two strings hold the same characters.
pub fn str_eq(a: &str, b: &str) -> (r: bool)
    ensures
        r <==> a@ == b@,
{
    let n = a.unicode_len();
    if n != b.unicode_len() {
        return false;
    }
    let mut i: usize = 0;
    while i < n
        invariant
            i <= n,
            n == a@.len(),
            n == b@.len(),
            forall|k: int| 0 <= k < i ==> a@[k] == b@[k],
        decreases n - i,
    {
        if a.get_char(i) != b.get_char(i) {
            return false;
        }
        i = i + 1;
    }
    proof {
        assert(a@ =~= b@);
    }
    true
}

/// Count the non-overlapping occurrences of `pat` in `s`, left to right.
pub fn count_matches(s: &str, pat: &str) -> (r: usize)
    requires
        pat@.len() >= 1,
    ensures
        r == count_from(s@, pat@, 0),
{
    let n = s.unicode_len();
    let m = pat.unicode_len();
    let mut pos: usize = 0;
    let mut cnt: usize = 0;
    loop
        invariant
            n == s@.len(),
            m == pat@.len(),
            m >= 1,
            cnt <= pos,
            pos <= n || cnt == 0,
            count_from(s@, pat@, 0) == cnt + count_from(s@, pat@, pos as int),
        decreases s@.len() - pos + 1,
    {
        match find_from(s, pat, pos) {
            None => {
                return cnt;
            },
            Some(i) => {
                proof {
                    lemma_find_at_bounds(s@, pat@, pos as int);
                }
                cnt = cnt + 1;
                pos = i + m;
            },
        }
    }
}

/// The position of the `n`th non-overlapping occurrence of `pat` in `s`,
/// counting from zero, or nothing when there are not that many.
pub fn nth_match_from(s: &str, pat: &str, n: usize) -> (r: Option<usize>)
    requires
        pat@.len() >= 1,
    ensures
        r matches Some(i) ==> nth_match(s@, pat@, 0, n as nat) == Some(i as int),
        r is None ==> nth_match(s@, pat@, 0, n as nat) is None,
{
    let len = s.unicode_len();
    let m = pat.unicode_len();
    let mut pos: usize = 0;
    let mut k: usize = 0;
    loop
        invariant
            len == s@.len(),
            m == pat@.len(),
            m >= 1,
            k <= n,
            pos <= len || k == 0,
            nth_match(s@, pat@, 0, n as nat) == nth_match(s@, pat@, pos as int, (n - k) as nat),
        decreases n - k,
    {
        match find_from(s, pat, pos) {
            None => {
                return None;
            },
            Some(i) => {
                proof {
                    lemma_find_at_bounds(s@, pat@, pos as int);
                }
                if k == n {
                    return Some(i);
                }
                pos = i + m;
                k = k + 1;
            },
        }
    }
}

/// The opening marker of a passage element.
pub open spec fn tag_passagedata() -> Seq<char> {
    seq!['<', 't', 'w', '-', 'p', 'a', 's', 's', 'a', 'g', 'e', 'd', 'a', 't', 'a']
}

/// The opening marker of the story element.
pub open spec fn tag_storydata() -> Seq<char> {
    seq!['<', 't', 'w', '-', 's', 't', 'o', 'r', 'y', 'd', 'a', 't', 'a']
}

/// The search pattern of the passage-id attribute.
pub open spec fn attr_pid() -> Seq<char> {
    seq![' ', 'p', 'i', 'd', '=', '"']
}

/// The search pattern of the passage-name attribute.
pub open spec fn attr_name() -> Seq<char> {
    seq![' ', 'n', 'a', 'm', 'e', '=', '"']
}

/// The search pattern of the start-passage attribute.
pub open spec fn attr_startnode() -> Seq<char> {
    seq![' ', 's', 't', 'a', 'r', 't', 'n', 'o', 'd', 'e', '=', '"']
}

/// The opening marker of a link.
pub open spec fn link_open() -> Seq<char> {
    seq!['[', '[']
}

/// The closing marker of a link.
pub open spec fn link_close() -> Seq<char> {
    seq![']', ']']
}

/// The label/target separator of a link, an HTML-escaped arrow.
pub open spec fn link_arrow() -> Seq<char> {
    seq!['-', '&', 'g', 't', ';']
}

/// The value of the attribute with search pattern `apat` inside the opening
/// tag that starts at `e`: the characters between the pattern and the next
/// quote, provided both fall before the tag's closing `>`.
pub open spec fn attr_value_at(s: Seq<char>, e: int, apat: Seq<char>) -> Option<Seq<char>> {
    match find_at(s, seq!['>'], e) {
        None => None,
        Some(g) => match find_at(s, apat, e) {
            None => None,
            Some(a) => if a + apat.len() > g {
                None
            } else {
                match find_at(s, seq!['"'], a + apat.len()) {
                    None => None,
                    Some(q) => if q > g {
                        None
                    } else {
                        Some(s.subrange(a + apat.len(), q))
                    },
                }
            },
        },
    }
}

/// The first element at or after `from` whose tag is `tag` and whose
/// attribute (searched by `apat`) holds exactly `val`.
pub open spec fn find_elem_with_attr(
    s: Seq<char>,
    tag: Seq<char>,
    apat: Seq<char>,
    val: Seq<char>,
    from: int,
) -> Option<int>
    decreases s.len() - from,
    when 0 <= from && 1 <= tag.len() && 1 <= apat.len()
    via find_elem_with_attr_decreases
{
    match find_at(s, tag, from) {
        None => None,
        Some(e) => if attr_value_at(s, e, apat) == Some(val) {
            Some(e)
        } else {
            find_elem_with_attr(s, tag, apat, val, e + 1)
        },
    }
}

#[via_fn]
proof fn find_elem_with_attr_decreases(
    s: Seq<char>,
    tag: Seq<char>,
    apat: Seq<char>,
    val: Seq<char>,
    from: int,
) {
    lemma_find_at_bounds(s, tag, from);
}

/// The text that follows the opening tag starting at `e`: from just past
/// the tag's closing `>` to the next `<`.
pub open spec fn text_range_after(s: Seq<char>, e: int) -> Option<(int, int)> {
    match find_at(s, seq!['>'], e) {
        None => None,
        Some(g) => match find_at(s, seq!['<'], g + 1) {
            None => None,
            Some(lt) => Some((g + 1, lt)),
        },
    }
}

/// The text of the first passage element whose attribute (searched by
/// `apat`) holds `val`; a passage with no text does not count.
pub open spec fn passage_text(s: Seq<char>, apat: Seq<char>, val: Seq<char>) -> Option<Seq<char>> {
    match find_elem_with_attr(s, tag_passagedata(), apat, val, 0) {
        None => None,
        Some(e) => match text_range_after(s, e) {
            None => None,
            Some((a, b)) => if a < b {
                Some(s.subrange(a, b))
            } else {
                None
            },
        },
    }
}

/// The value of the story element's start-passage attribute.
pub open spec fn start_passage_id(s: Seq<char>) -> Option<Seq<char>> {
    match find_at(s, tag_storydata(), 0) {
        None => None,
        Some(e) => attr_value_at(s, e, attr_startnode()),
    }
}

/// The label and target of the `n`th link of a passage: the characters
/// between its markers, split at the first arrow if one is present, else
/// the whole content serving as both.
pub open spec fn link_label_target(s: Seq<char>, n: nat) -> Option<(Seq<char>, Seq<char>)> {
    match (nth_match(s, link_open(), 0, n), nth_match(s, link_close(), 0, n)) {
        (Some(a), Some(b)) => if a + 2 <= b {
            let content = s.subrange(a + 2, b);
            match find_at(content, link_arrow(), 0) {
                None => Some((content, content)),
                Some(d) => Some(
                    (content.subrange(0, d), content.subrange(d + 5, content.len() as int)),
                ),
            }
        } else {
            None
        },
        _ => None,
    }
}

/// The attribute value, executable: mirrors `attr_value_at` search by
/// search.
fn attr_value_exec<'a>(s: &'a str, e: usize, apat: &str) -> (r: Option<&'a str>)
    requires
        apat@.len() >= 1,
    ensures
        r matches Some(v) ==> attr_value_at(s@, e as int, apat@) == Some(v@),
        r is None ==> attr_value_at(s@, e as int, apat@) is None,
{
    proof {
        reveal_strlit(">");
        reveal_strlit("\"");
        assert(">"@ =~= seq!['>']);
        assert("\""@ =~= seq!['"']);
    }
    let len = s.unicode_len();
    let g = match find_from(s, ">", e) {
        None => {
            return None;
        },
        Some(g) => g,
    };
    let a = match find_from(s, apat, e) {
        None => {
            return None;
        },
        Some(a) => a,
    };
    proof {
        lemma_find_at_bounds(s@, apat@, e as int);
    }
    let alen = apat.unicode_len();
    if a + alen > g {
        return None;
    }
    let q = match find_from(s, "\"", a + alen) {
        None => {
            return None;
        },
        Some(q) => q,
    };
    if q > g {
        return None;
    }
    proof {
        lemma_find_at_bounds(s@, seq!['"'], a + alen);
    }
    Some(s.substring_char(a + alen, q))
}

/// The first matching element, executable: walks candidate tags left to
/// right and compares the attribute value.
fn find_elem_with_attr_exec(s: &str, tag: &str, apat: &str, val: &str) -> (r: Option<usize>)
    requires
        tag@.len() >= 1,
        apat@.len() >= 1,
    ensures
        r matches Some(e) ==> find_elem_with_attr(s@, tag@, apat@, val@, 0) == Some(e as int),
        r is None ==> find_elem_with_attr(s@, tag@, apat@, val@, 0) is None,
{
    let len = s.unicode_len();
    let mut pos: usize = 0;
    loop
        invariant
            len == s@.len(),
            tag@.len() >= 1,
            apat@.len() >= 1,
            pos <= len + 1,
            find_elem_with_attr(s@, tag@, apat@, val@, 0) == find_elem_with_attr(
                s@,
                tag@,
                apat@,
                val@,
                pos as int,
            ),
        decreases len + 1 - pos,
    {
        let e = match find_from(s, tag, pos) {
            None => {
                return None;
            },
            Some(e) => e,
        };
        proof {
            lemma_find_at_bounds(s@, tag@, pos as int);
        }
        let matched = match attr_value_exec(s, e, apat) {
            Some(v) => str_eq(v, val),
            None => false,
        };
        if matched {
            return Some(e);
        }
        pos = e + 1;
    }
}

/// The passage text, executable: the matching element, then its text up to
/// the next markup.
fn passage_text_exec<'a>(story: &'a str, apat: &str, val: &str) -> (r: Option<&'a str>)
    requires
        apat@.len() >= 1,
    ensures
        r matches Some(t) ==> passage_text(story@, apat@, val@) == Some(t@),
        r is None ==> passage_text(story@, apat@, val@) is None,
{
    proof {
        reveal_strlit("<tw-passagedata");
        assert("<tw-passagedata"@ =~= tag_passagedata());
        reveal_strlit(">");
        assert(">"@ =~= seq!['>']);
        reveal_strlit("<");
        assert("<"@ =~= seq!['<']);
    }
    let len = story.unicode_len();
    let e = match find_elem_with_attr_exec(story, "<tw-passagedata", apat, val) {
        None => {
            return None;
        },
        Some(e) => e,
    };
    let g = match find_from(story, ">", e) {
        None => {
            return None;
        },
        Some(g) => g,
    };
    proof {
        lemma_find_at_bounds(story@, seq!['>'], e as int);
    }
    let lt = match find_from(story, "<", g + 1) {
        None => {
            return None;
        },
        Some(lt) => lt,
    };
    proof {
        lemma_find_at_bounds(story@, seq!['<'], g + 1);
    }
    if g + 1 < lt {
        Some(story.substring_char(g + 1, lt))
    } else {
        None
    }
}

/// The text of the passage with the given id. The story must hold such a
/// passage, with text — compiled-in story data is fixed at build time, and
/// a malformed story is an unrecoverable stop, not an error to handle.
pub fn find_passage_text_by_id<'a>(story: &'a str, passage_id: &str) -> (r: &'a str)
    requires
        passage_text(story@, attr_pid(), passage_id@) is Some,
    ensures
        passage_text(story@, attr_pid(), passage_id@) == Some(r@),
{
    proof {
        reveal_strlit(" pid=\"");
        assert(" pid=\""@ =~= attr_pid());
    }
    match passage_text_exec(story, " pid=\"", passage_id) {
        Some(t) => t,
        None => unreached(),
    }
}

/// The text of the passage with the given name; the same stop-on-malformed
/// contract as the lookup by id.
pub fn find_passage_text_by_name<'a>(story: &'a str, passage_name: &str) -> (r: &'a str)
    requires
        passage_text(story@, attr_name(), passage_name@) is Some,
    ensures
        passage_text(story@, attr_name(), passage_name@) == Some(r@),
{
    proof {
        reveal_strlit(" name=\"");
        assert(" name=\""@ =~= attr_name());
    }
    match passage_text_exec(story, " name=\"", passage_name) {
        Some(t) => t,
        None => unreached(),
    }
}

/// The id of the passage the story starts at: the story element's
/// start-passage attribute, which the story must carry.
pub fn find_start_passage_id<'a>(story: &'a str) -> (r: &'a str)
    requires
        start_passage_id(story@) is Some,
    ensures
        start_passage_id(story@) == Some(r@),
{
    proof {
        reveal_strlit("<tw-storydata");
        assert("<tw-storydata"@ =~= tag_storydata());
        reveal_strlit(" startnode=\"");
        assert(" startnode=\""@ =~= attr_startnode());
    }
    let e = match find_from(story, "<tw-storydata", 0) {
        None => unreached(),
        Some(e) => e,
    };
    match attr_value_exec(story, e, " startnode=\"") {
        Some(v) => v,
        None => unreached(),
    }
}

/// How many links a passage offers.
pub fn get_n_links(passage: &str) -> (r: usize)
    ensures
        r == count_from(passage@, link_open(), 0),
{
    proof {
        reveal_strlit("[[");
        assert("[["@ =~= link_open());
    }
    count_matches(passage, "[[")
}

/// The label shown for a link and the name of the passage it leads to.
pub struct LinkData<'a> {
    pub label: &'a str,
    pub target: &'a str,
}

/// The `n`th link of a passage, which must exist and be well formed — the
/// same stop-on-malformed contract as the passage lookups.
pub fn get_link_data<'a>(passage: &'a str, n: usize) -> (r: LinkData<'a>)
    requires
        link_label_target(passage@, n as nat) is Some,
    ensures
        link_label_target(passage@, n as nat) matches Some(p) ==> r.label@ == p.0 && r.target@
            == p.1,
{
    proof {
        reveal_strlit("[[");
        assert("[["@ =~= link_open());
        reveal_strlit("]]");
        assert("]]"@ =~= link_close());
        reveal_strlit("-&gt;");
        assert("-&gt;"@ =~= link_arrow());
    }
    let a = match nth_match_from(passage, "[[", n) {
        None => unreached(),
        Some(a) => a,
    };
    let b = match nth_match_from(passage, "]]", n) {
        None => unreached(),
        Some(b) => b,
    };
    proof {
        lemma_nth_match_bounds(passage@, link_open(), 0, n as nat);
        lemma_nth_match_bounds(passage@, link_close(), 0, n as nat);
    }
    let content = passage.substring_char(a + 2, b);
    match find_from(content, "-&gt;", 0) {
        None => LinkData { label: content, target: content },
        Some(d) => {
            proof {
                lemma_find_at_bounds(content@, link_arrow(), 0);
            }
            LinkData {
                label: content.substring_char(0, d),
                target: content.substring_char(d + 5, content.unicode_len()),
            }
        },
    }
}

/// A found `n`th occurrence lies at or after the start of the search, and
/// fits inside the text.
pub proof fn lemma_nth_match_bounds<T>(s: Seq<T>, pat: Seq<T>, from: int, n: nat)
    requires
        0 <= from,
        1 <= pat.len(),
    ensures
        nth_match(s, pat, from, n) matches Some(i) ==> from <= i && i + pat.len() <= s.len()
            && matches_at(s, pat, i),
    decreases n,
{
    lemma_find_at_bounds(s, pat, from);
    match find_at(s, pat, from) {
        None => {},
        Some(i) => {
            if n > 0 {
                lemma_nth_match_bounds(s, pat, i + pat.len(), (n - 1) as nat);
            }
        },
    }
}

/// One round of the story player: a passage is typed up to its first link
/// marker, where the menu takes over; a passage without links ends the
/// story.
pub fn play_step(passage: &str) -> (r: Option<usize>)
    ensures
        r matches Some(i) ==> find_at(passage@, link_open(), 0) == Some(i as int),
        r is None ==> find_at(passage@, link_open(), 0) is None,
{
    proof {
        reveal_strlit("[[");
        assert("[["@ =~= link_open());
    }
    find_from(passage, "[[", 0)
}

/// The bytes of the story element's opening marker, for the raw
/// compiled-in story file.
pub open spec fn storydata_open_bytes() -> Seq<u8> {
    seq![60u8, 116u8, 119u8, 45u8, 115u8, 116u8, 111u8, 114u8, 121u8, 100u8, 97u8, 116u8, 97u8]
}

/// The bytes of the story element's closing marker.
pub open spec fn storydata_close_bytes() -> Seq<u8> {
    seq![
        60u8,
        47u8,
        116u8,
        119u8,
        45u8,
        115u8,
        116u8,
        111u8,
        114u8,
        121u8,
        100u8,
        97u8,
        116u8,
        97u8,
        62u8,
    ]
}

/// The span of the raw story file worth keeping: from the story element's
/// opening marker to its closing marker, leaving out the browser styling
/// and scripts around it.
pub open spec fn story_body_range(b: Seq<u8>) -> Option<(int, int)> {
    match (find_at(b, storydata_open_bytes(), 0), find_at(b, storydata_close_bytes(), 0)) {
        (Some(s0), Some(e0)) => Some((s0, e0)),
        _ => None,
    }
}

/// Whether `needle` occurs in `haystack` at exactly `offset`.
pub fn bytes_equal(haystack: &[u8], needle: &[u8], offset: usize) -> (r: bool)
    requires
        offset + needle@.len() <= haystack@.len(),
        haystack@.len() <= usize::MAX,
    ensures
        r == matches_at(haystack@, needle@, offset as int),
{
    let m = needle.len();
    let mut i: usize = 0;
    while i < m
        invariant
            i <= m,
            m == needle@.len(),
            offset + m <= haystack@.len(),
            haystack@.len() <= usize::MAX,
            forall|k: int| 0 <= k < i ==> haystack@[offset + k] == needle@[k],
        decreases m - i,
    {
        if haystack[offset + i] != needle[i] {
            proof {
                if matches_at(haystack@, needle@, offset as int) {
                    assert(haystack@.subrange(offset as int, offset + needle@.len())[i as int]
                        == needle@[i as int]);
                }
            }
            return false;
        }
        i = i + 1;
    }
    proof {
        assert(haystack@.subrange(offset as int, offset + needle@.len()) =~= needle@);
    }
    true
}

/// The first offset at which `needle` occurs in `haystack`; an occurrence
/// must exist — searching compiled-in story data for a marker it lacks is
/// an unrecoverable stop.
pub fn find_offset(haystack: &[u8], needle: &[u8]) -> (r: usize)
    requires
        needle@.len() >= 1,
        find_at(haystack@, needle@, 0) is Some,
    ensures
        find_at(haystack@, needle@, 0) == Some(r as int),
{
    let n = haystack.len();
    let m = needle.len();
    proof {
        lemma_find_at_bounds(haystack@, needle@, 0);
    }
    let mut i: usize = 0;
    while i <= n - m
        invariant
            1 <= m <= n,
            n == haystack@.len(),
            m == needle@.len(),
            find_at(haystack@, needle@, 0) == find_at(haystack@, needle@, i as int),
        decreases n - i,
    {
        if bytes_equal(haystack, needle, i) {
            return i;
        }
        proof {
            assert(find_at(haystack@, needle@, i as int) == find_at(haystack@, needle@, i + 1));
        }
        i = i + 1;
    }
    proof {
        assert(false);
    }
    unreached()
}

/// Cut the raw story file down to the story element: both markers must be
/// present, in order.
pub fn strip_header<'a>(bytes: &'a [u8]) -> (r: &'a [u8])
    requires
        story_body_range(bytes@) matches Some(p) && p.0 <= p.1,
    ensures
        story_body_range(bytes@) matches Some(p) ==> r@ == bytes@.subrange(p.0, p.1),
{
    let open_marker = storydata_open_needle();
    let close_marker = storydata_close_needle();
    let start_offset = find_offset(bytes, open_marker.as_slice());
    let end_offset = find_offset(bytes, close_marker.as_slice());
    proof {
        lemma_find_at_bounds(bytes@, storydata_close_bytes(), 0);
    }
    slice_subrange(bytes, start_offset, end_offset)
}

/// The story element's opening marker as bytes.
fn storydata_open_needle() -> (r: Vec<u8>)
    ensures
        r@ == storydata_open_bytes(),
{
    let mut v: Vec<u8> = Vec::new();
    v.push(60);
    v.push(116);
    v.push(119);
    v.push(45);
    v.push(115);
    v.push(116);
    v.push(111);
    v.push(114);
    v.push(121);
    v.push(100);
    v.push(97);
    v.push(116);
    v.push(97);
    proof {
        assert(v@ =~= storydata_open_bytes());
    }
    v
}

/// The story element's closing marker as bytes.
fn storydata_close_needle() -> (r: Vec<u8>)
    ensures
        r@ == storydata_close_bytes(),
{
    let mut v: Vec<u8> = Vec::new();
    v.push(60);
    v.push(47);
    v.push(116);
    v.push(119);
    v.push(45);
    v.push(115);
    v.push(116);
    v.push(111);
    v.push(114);
    v.push(121);
    v.push(100);
    v.push(97);
    v.push(116);
    v.push(97);
    v.push(62);
    proof {
        assert(v@ =~= storydata_close_bytes());
    }
    v
}

} // verus!
