//! Inline images embedded in markdown text.
//!
//! A model sometimes answers with `![alt](data:image/png;base64,...)` inside
//! its prose. Such spans are cut out of the text and their data URIs handed
//! back, in the order in which they occur.

use crate::text::{
    chars_of, find_from, has_at, lemma_find_from, matches_at, push_range, starts_with, string_of,
    strings_view, trim, trimmed, Finder,
};
use vstd::prelude::*;

verus! {

/// Opens a markdown image: `![`.
pub open spec fn image_open() -> Seq<char> {
    seq!['!', '[']
}

/// Separates the alternative text from the target: `](`.
pub open spec fn image_middle() -> Seq<char> {
    seq![']', '(']
}

/// Closes the target: `)`.
pub open spec fn image_close() -> Seq<char> {
    seq![')']
}

/// What the target of an embedded image starts with.
pub open spec fn data_image_prefix() -> Seq<char> {
    seq!['d', 'a', 't', 'a', ':', 'i', 'm', 'a', 'g', 'e', '/']
}

/// Number of backslashes that stand directly before index `i`.
pub open spec fn backslashes_before(t: Seq<char>, i: int) -> nat
    decreases i,
{
    if 0 < i <= t.len() && t[i - 1] == '\\' {
        1 + backslashes_before(t, i - 1)
    } else {
        0
    }
}

/// Index `i` holds a `)` that is not escaped: an even number of backslashes
/// stands before it.
pub open spec fn closes_at(t: Seq<char>, i: int) -> bool {
    0 <= i < t.len() && t[i] == ')' && backslashes_before(t, i) % 2 == 0
}

/// Index of the first `)` at or after `from` that is not escaped, if there
/// is one.
pub open spec fn closing_from(t: Seq<char>, from: int) -> Option<int>
    decreases t.len() - from,
{
    if from < 0 || from >= t.len() {
        None
    } else if closes_at(t, from) {
        Some(from)
    } else {
        closing_from(t, from + 1)
    }
}

/// An embedded image found in a text.
pub struct EmbeddedImage {
    /// The data URI between the parentheses.
    pub uri: Seq<char>,
    /// Index just behind the closing parenthesis.
    pub end: int,
}

/// The embedded image that starts at index `start` of `t`, if one does.
///
/// One starts there when `t` holds `![` at `start`, the first `](` behind
/// it is followed by `data:image/`, and a `)` that is not escaped follows.
/// The data URI runs up to the first such `)`.
pub open spec fn image_at(t: Seq<char>, start: int) -> Option<EmbeddedImage> {
    if !has_at(t, start, image_open()) {
        None
    } else {
        match find_from(t, start + 2, image_middle()) {
            None => None,
            Some(mid) => if !has_at(t, mid + 2, data_image_prefix()) {
                None
            } else {
                match closing_from(t, mid + 2) {
                    None => None,
                    Some(close) => Some(
                        EmbeddedImage { uri: t.subrange(mid + 2, close), end: close + 1 },
                    ),
                }
            },
        }
    }
}

/// The text left of `t[i..]` once every embedded image is cut out.
///
/// Read from left to right: where an embedded image starts, it is skipped
/// as a whole; any other character is kept, a `![` that opens no embedded
/// image included.
pub open spec fn text_without_images(t: Seq<char>, i: int) -> Seq<char>
    decreases t.len() - i,
{
    if i < 0 || i >= t.len() {
        Seq::empty()
    } else {
        match image_at(t, i) {
            Some(img) if i < img.end <= t.len() => text_without_images(t, img.end),
            _ => seq![t[i]] + text_without_images(t, i + 1),
        }
    }
}

/// The data URIs of the embedded images of `t[i..]`, from left to right.
pub open spec fn images_in(t: Seq<char>, i: int) -> Seq<Seq<char>>
    decreases t.len() - i,
{
    if i < 0 || i >= t.len() {
        Seq::empty()
    } else {
        match image_at(t, i) {
            Some(img) if i < img.end <= t.len() => seq![img.uri] + images_in(t, img.end),
            _ => images_in(t, i + 1),
        }
    }
}

/// The text of `t` without its embedded images, trimmed.
pub open spec fn cleaned_text(t: Seq<char>) -> Seq<char> {
    trimmed(text_without_images(t, 0))
}

/// The data URIs embedded in `t`, in order.
pub open spec fn embedded_images(t: Seq<char>) -> Seq<Seq<char>> {
    images_in(t, 0)
}

/// `closing_from` gives the least index at or after `from` that holds a
/// `)` which is not escaped.
pub proof fn lemma_closing_from(t: Seq<char>, from: int)
    requires
        0 <= from,
    ensures
        match closing_from(t, from) {
            Some(i) => from <= i && closes_at(t, i) && forall|j: int|
                from <= j < i ==> !closes_at(t, j),
            None => forall|j: int| from <= j ==> !closes_at(t, j),
        },
    decreases t.len() - from,
{
    if from < t.len() && !closes_at(t, from) {
        lemma_closing_from(t, from + 1);
    }
}

/// A search that starts later finds the same `)`, as long as it does not
/// start behind it.
pub proof fn lemma_closing_from_later(t: Seq<char>, a: int, b: int)
    requires
        0 <= a <= b,
        closing_from(t, a) matches Some(m) ==> b <= m,
    ensures
        closing_from(t, b) == closing_from(t, a),
{
    lemma_closing_from(t, a);
    lemma_closing_from(t, b);
}

/// An embedded image ends behind where it starts, inside the text, and its
/// data URI starts with `data:image/`.
pub proof fn lemma_image_at(t: Seq<char>, start: int)
    ensures
        match image_at(t, start) {
            Some(img) => {
                &&& 0 <= start
                &&& start + 15 <= img.end <= t.len()
                &&& starts_with(img.uri, data_image_prefix())
            },
            None => true,
        },
{
    if has_at(t, start, image_open()) {
        lemma_find_from(t, start + 2, image_middle());
        match find_from(t, start + 2, image_middle()) {
            None => {},
            Some(mid) => {
                if has_at(t, mid + 2, data_image_prefix()) {
                    lemma_closing_from(t, mid + 2);
                    match closing_from(t, mid + 2) {
                        None => {},
                        Some(close) => {
                            let uri = t.subrange(mid + 2, close);
                            let pre = data_image_prefix();
                            assert(close >= mid + 2 + 11) by {
                                if close < mid + 2 + 11 {
                                    let k = close - mid - 2;
                                    assert(t[mid + 2 + k] == pre[k]);
                                }
                            }
                            assert forall|k: int| 0 <= k < pre.len() implies uri[0 + k]
                                == #[trigger] pre[k] by {
                                assert(t[mid + 2 + k] == pre[k]);
                            }
                        },
                    }
                }
            },
        }
    }
}

/// A text without `!` holds no embedded image: nothing is cut out of it.
pub proof fn lemma_plain_text(t: Seq<char>, i: int)
    requires
        0 <= i <= t.len(),
        forall|k: int| i <= k < t.len() ==> t[k] != '!',
    ensures
        text_without_images(t, i) == t.subrange(i, t.len() as int),
        images_in(t, i) == Seq::<Seq<char>>::empty(),
    decreases t.len() - i,
{
    if i < t.len() {
        assert(!has_at(t, i, image_open())) by {
            if has_at(t, i, image_open()) {
                assert(t[i + 0] == image_open()[0]);
            }
        }
        lemma_plain_text(t, i + 1);
        assert(seq![t[i]] + t.subrange(i + 1, t.len() as int) =~= t.subrange(i, t.len() as int));
    } else {
        assert(t.subrange(i, t.len() as int) =~= Seq::<char>::empty());
    }
}

/// The markdown of an embedded image: `![alt](uri)`.
pub open spec fn image_markdown(alt: Seq<char>, uri: Seq<char>) -> Seq<char> {
    image_open() + alt + image_middle() + uri + image_close()
}

/// Where the pieces of `![alt](uri)` followed by `rest` stand.
proof fn lemma_markdown_layout(alt: Seq<char>, uri: Seq<char>, rest: Seq<char>)
    ensures
        ({
            let t = image_markdown(alt, uri) + rest;
            let mid = 2 + alt.len() as int;
            let close = mid + 2 + uri.len() as int;
            &&& t.len() == close + 1 + rest.len()
            &&& t[0] == '!'
            &&& t[1] == '['
            &&& forall|k: int| 0 <= k < alt.len() ==> t[2 + k] == #[trigger] alt[k]
            &&& t[mid] == ']'
            &&& t[mid + 1] == '('
            &&& forall|k: int| 0 <= k < uri.len() ==> t[mid + 2 + k] == #[trigger] uri[k]
            &&& t[close] == ')'
            &&& forall|k: int| 0 <= k < rest.len() ==> t[close + 1 + k] == #[trigger] rest[k]
        }),
{
    let a = image_open() + alt;
    let b = a + image_middle();
    let c = b + uri;
    let d = c + image_close();
    let t = d + rest;
    assert(a.len() == 2 + alt.len());
    assert(b.len() == a.len() + 2);
    assert(c.len() == b.len() + uri.len());
    assert(d.len() == c.len() + 1);
    assert forall|k: int| 0 <= k < a.len() implies t[k] == a[k] by {
        assert(b[k] == a[k]);
        assert(c[k] == b[k]);
        assert(d[k] == c[k]);
    }
    assert forall|k: int| 0 <= k < alt.len() implies t[2 + k] == #[trigger] alt[k] by {
        assert(a[2 + k] == alt[k]);
    }
    assert(t[0] == a[0] && t[1] == a[1]);
    assert forall|k: int| a.len() <= k < b.len() implies t[k] == image_middle()[k - a.len()] by {
        assert(b[k] == image_middle()[k - a.len()]);
        assert(c[k] == b[k]);
        assert(d[k] == c[k]);
    }
    assert forall|k: int| 0 <= k < uri.len() implies t[b.len() + k] == #[trigger] uri[k] by {
        assert(c[b.len() + k] == uri[k]);
        assert(d[b.len() + k] == c[b.len() + k]);
    }
    assert(t[c.len() as int] == d[c.len() as int]);
    assert(d[c.len() as int] == image_close()[0]);
    assert forall|k: int| 0 <= k < rest.len() implies t[d.len() + k] == #[trigger] rest[k] by {}
}

/// What `lemma_leading_image` states, of a text that is known by the
/// places of its pieces alone.
proof fn lemma_leading_image_at(t: Seq<char>, alt: Seq<char>, uri: Seq<char>, rest: Seq<char>)
    requires
        t.len() == 2 + alt.len() + 2 + uri.len() + 1 + rest.len(),
        t[0] == '!',
        t[1] == '[',
        forall|k: int| 0 <= k < alt.len() ==> t[2 + k] == #[trigger] alt[k],
        t[2 + alt.len() as int] == ']',
        t[2 + alt.len() as int + 1] == '(',
        forall|k: int| 0 <= k < uri.len() ==> t[2 + alt.len() as int + 2 + k] == #[trigger] uri[k],
        t[2 + alt.len() as int + 2 + uri.len() as int] == ')',
        forall|k: int|
            0 <= k < rest.len() ==> t[2 + alt.len() as int + 2 + uri.len() as int + 1 + k]
                == #[trigger] rest[k],
        forall|k: int| 0 <= k < alt.len() ==> alt[k] != '(',
        starts_with(uri, data_image_prefix()),
        forall|k: int| 0 <= k < uri.len() ==> uri[k] != ')' && uri[k] != '\\',
        forall|k: int| 0 <= k < rest.len() ==> rest[k] != '!',
    ensures
        text_without_images(t, 0) == rest,
        images_in(t, 0) == seq![uri],
{
    let mid: int = 2 + alt.len() as int;
    let close: int = mid + 2 + uri.len() as int;
    assert(has_at(t, 0, image_open()));
    assert(find_from(t, 2, image_middle()) == Some(mid)) by {
        assert(has_at(t, mid, image_middle()));
        lemma_find_from(t, 2, image_middle());
        assert forall|j: int| 2 <= j < mid implies !has_at(t, j, image_middle()) by {
            if has_at(t, j, image_middle()) {
                assert(t[j + 1] == image_middle()[1]);
                if j + 1 < mid {
                    assert(t[2 + (j - 1)] == alt[j - 1]);
                }
            }
        }
    }
    assert(has_at(t, mid + 2, data_image_prefix())) by {
        assert forall|k: int| 0 <= k < data_image_prefix().len() implies t[mid + 2 + k]
            == #[trigger] data_image_prefix()[k] by {
            assert(uri[0 + k] == data_image_prefix()[k]);
            assert(t[mid + 2 + k] == uri[k]);
        }
    }
    assert(closing_from(t, mid + 2) == Some(close)) by {
        assert(uri.len() >= data_image_prefix().len());
        assert(t[mid + 2 + (uri.len() - 1)] == uri[uri.len() - 1]);
        assert(backslashes_before(t, close) == 0);
        assert(closes_at(t, close));
        lemma_closing_from(t, mid + 2);
        assert forall|j: int| mid + 2 <= j < close implies !closes_at(t, j) by {
            assert(t[mid + 2 + (j - mid - 2)] == uri[j - mid - 2]);
        }
    }
    assert(t.subrange(mid + 2, close) =~= uri) by {
        assert forall|k: int| 0 <= k < uri.len() implies t.subrange(mid + 2, close)[k]
            == uri[k] by {
            assert(t[mid + 2 + k] == uri[k]);
        }
    }
    assert(image_at(t, 0) == Some(EmbeddedImage { uri, end: close + 1 }));
    assert(t.subrange(close + 1, t.len() as int) =~= rest) by {
        assert forall|k: int| 0 <= k < rest.len() implies t.subrange(close + 1, t.len() as int)[k]
            == rest[k] by {
            assert(t[close + 1 + k] == rest[k]);
        }
    }
    assert forall|k: int| close + 1 <= k < t.len() implies t[k] != '!' by {
        assert(t[close + 1 + (k - close - 1)] == rest[k - close - 1]);
    }
    lemma_plain_text(t, close + 1);
    assert(text_without_images(t, 0) == text_without_images(t, close + 1));
    assert(images_in(t, 0) == seq![uri] + images_in(t, close + 1));
    assert(seq![uri] + Seq::<Seq<char>>::empty() =~= seq![uri]);
}

/// A text that starts with the markdown of an embedded image and goes on
/// without `!` yields the data URI of that image and, trimmed, what follows
/// it. The alternative text may hold anything but `(`, the data URI
/// anything but `)` and `\`.
pub proof fn lemma_leading_image(alt: Seq<char>, uri: Seq<char>, rest: Seq<char>)
    requires
        forall|k: int| 0 <= k < alt.len() ==> alt[k] != '(',
        starts_with(uri, data_image_prefix()),
        forall|k: int| 0 <= k < uri.len() ==> uri[k] != ')' && uri[k] != '\\',
        forall|k: int| 0 <= k < rest.len() ==> rest[k] != '!',
    ensures
        cleaned_text(image_markdown(alt, uri) + rest) == trimmed(rest),
        embedded_images(image_markdown(alt, uri) + rest) == seq![uri],
{
    lemma_markdown_layout(alt, uri, rest);
    lemma_leading_image_at(image_markdown(alt, uri) + rest, alt, uri, rest);
}

/// Whether an odd number of backslashes stands directly before index `i`.
fn escaped_at(t: &Vec<char>, i: usize) -> (r: bool)
    requires
        i <= t.len(),
    ensures
        r == (backslashes_before(t@, i as int) % 2 == 1),
{
    let mut j: usize = i;
    let mut odd = false;
    while j > 0 && t[j - 1] == '\\'
        invariant
            j <= i <= t.len(),
            (backslashes_before(t@, i as int) % 2 == 1) == (odd != (backslashes_before(
                t@,
                j as int,
            ) % 2 == 1)),
        decreases j,
    {
        odd = !odd;
        j = j - 1;
    }
    odd
}

/// Index of the first `)` in `t` at or after `from` that is not escaped.
fn find_closing(t: &Vec<char>, from: usize) -> (r: Option<usize>)
    ensures
        match r {
            Some(i) => closing_from(t@, from as int) == Some(i as int),
            None => closing_from(t@, from as int) is None,
        },
{
    if from >= t.len() {
        return None;
    }
    let mut odd = escaped_at(t, from);
    let mut i: usize = from;
    while i < t.len()
        invariant
            from <= i <= t.len(),
            odd == (backslashes_before(t@, i as int) % 2 == 1),
            closing_from(t@, from as int) == closing_from(t@, i as int),
        decreases t.len() - i,
    {
        let c = t[i];
        if c == ')' && !odd {
            return Some(i);
        }
        odd = c == '\\' && !odd;
        i = i + 1;
    }
    None
}

/// The patterns that the markup of an embedded image is made of, and what
/// was last found behind them in the text at hand.
struct Scanner {
    open: Vec<char>,
    prefix: Vec<char>,
    middle: Finder,
    closing_from: usize,
    closing_at: Option<usize>,
}

impl Scanner {
    /// The scanner holds the patterns of the markup, and what it remembers
    /// is true of the text `t`.
    spec fn ready(&self, t: Seq<char>) -> bool {
        &&& self.open@ == image_open()
        &&& self.prefix@ == data_image_prefix()
        &&& self.middle.pattern() == image_middle()
        &&& self.middle.remembers(t)
        &&& match self.closing_at {
            Some(i) => closing_from(t, self.closing_from as int) == Some(i as int),
            None => closing_from(t, self.closing_from as int) is None,
        }
    }

    /// A scanner for the text `t`.
    fn new(t: &Vec<char>) -> (r: Scanner)
        ensures
            r.ready(t@),
    {
        let open: Vec<char> = vec!['!', '['];
        let middle: Vec<char> = vec![']', '('];
        let prefix: Vec<char> = vec!['d', 'a', 't', 'a', ':', 'i', 'm', 'a', 'g', 'e', '/'];
        assert(open@ =~= image_open());
        assert(middle@ =~= image_middle());
        assert(prefix@ =~= data_image_prefix());
        Scanner {
            open,
            prefix,
            middle: Finder::new(t, middle),
            closing_from: 0,
            closing_at: find_closing(t, 0),
        }
    }

    /// Index of the first `)` in `t` at or after `start` that is not
    /// escaped.
    fn closing(&mut self, t: &Vec<char>, start: usize) -> (r: Option<usize>)
        requires
            old(self).ready(t@),
        ensures
            final(self).ready(t@),
            match r {
                Some(i) => closing_from(t@, start as int) == Some(i as int),
                None => closing_from(t@, start as int) is None,
            },
    {
        let known = self.closing_from <= start && match self.closing_at {
            Some(i) => start <= i,
            None => true,
        };
        if known {
            proof {
                lemma_closing_from_later(t@, self.closing_from as int, start as int);
            }
        } else {
            self.closing_at = find_closing(t, start);
            self.closing_from = start;
        }
        self.closing_at
    }

    /// The embedded image that starts at `start`, as its data URI and the
    /// index behind it.
    fn match_image(&mut self, t: &Vec<char>, start: usize) -> (r: Option<(Vec<char>, usize)>)
        requires
            old(self).ready(t@),
        ensures
            final(self).ready(t@),
            match r {
                Some((uri, end)) => image_at(t@, start as int) == Some(
                    EmbeddedImage { uri: uri@, end: end as int },
                ) && start < end <= t.len(),
                None => image_at(t@, start as int) is None,
            },
    {
        proof {
            lemma_image_at(t@, start as int);
        }
        if !matches_at(t, start, &self.open) {
            return None;
        }
        assert(start + self.open@.len() <= t.len());
        let mid = match self.middle.first_from(t, start + 2) {
            Some(mid) => mid,
            None => {
                return None;
            },
        };
        proof {
            lemma_find_from(t@, start + 2, image_middle());
        }
        assert(mid + image_middle().len() <= t.len());
        if !matches_at(t, mid + 2, &self.prefix) {
            return None;
        }
        let end = match self.closing(t, mid + 2) {
            Some(end) => end,
            None => {
                return None;
            },
        };
        proof {
            lemma_closing_from(t@, mid + 2);
        }
        let mut uri: Vec<char> = Vec::new();
        push_range(&mut uri, t, mid + 2, end);
        Some((uri, end + 1))
    }
}

/// Cuts the embedded images out of `text`.
///
/// Returns the text without them, trimmed, and their data URIs in the order
/// in which they occur. A `![` that opens no embedded image stays in the
/// text. The text is read in one pass from left to right.
pub fn extract_images_from_markdown(text: &str) -> (r: (String, Vec<String>))
    ensures
        r.0@ == cleaned_text(text@),
        strings_view(r.1@) == embedded_images(text@),
{
    let t = chars_of(text);
    let mut scanner = Scanner::new(&t);
    let mut kept: Vec<char> = Vec::new();
    let mut images: Vec<String> = Vec::new();
    let mut i: usize = 0;
    while i < t.len()
        invariant
            i <= t.len(),
            scanner.ready(t@),
            text_without_images(t@, 0) == kept@ + text_without_images(t@, i as int),
            images_in(t@, 0) == strings_view(images@) + images_in(t@, i as int),
        decreases t.len() - i,
    {
        match scanner.match_image(&t, i) {
            Some((uri, end)) => {
                let ghost before = strings_view(images@);
                images.push(string_of(&uri));
                assert(strings_view(images@) =~= before + seq![uri@]);
                assert(strings_view(images@) + images_in(t@, end as int) =~= before + (seq![uri@]
                    + images_in(t@, end as int)));
                i = end;
            },
            None => {
                let ghost before = kept@;
                kept.push(t[i]);
                assert(kept@ + text_without_images(t@, i + 1) =~= before + (seq![t@[i as int]]
                    + text_without_images(t@, i + 1)));
                i = i + 1;
            },
        }
    }
    assert(kept@ + Seq::<char>::empty() =~= kept@);
    assert(strings_view(images@) + Seq::<Seq<char>>::empty() =~= strings_view(images@));
    let cleaned = trim(&kept);
    (string_of(&cleaned), images)
}

} // verus!
