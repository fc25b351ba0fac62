//! Text helpers shared by the pipeline and the boundary: blank checks,
//! truncation, tag extraction, address validation, HTML stripping,
//! reputation arithmetic and relative-time formatting.
//!
//! Unicode case folding and wholesale substring replacement come from the
//! standard library through trusted items; everything layered on them is
//! proved. Text is modelled as its character sequence.

use vstd::prelude::*;
use vstd::string::{StrSliceExecFns, StringExecFns};

verus! {

/// Whether `c` is a blank character: space, tab, carriage return or newline.
pub open spec fn is_space(c: char) -> bool {
    c == ' ' || c == '\t' || c == '\r' || c == '\n'
}

/// Whether `s` holds nothing but blank characters.
pub open spec fn spec_is_blank(s: Seq<char>) -> bool {
    forall|i: int| 0 <= i < s.len() ==> is_space(#[trigger] s[i])
}

/// String equality by character content.
pub fn str_eq(a: &str, b: &str) -> (r: bool)
    ensures
        r == (a@ == b@),
{
    let oa: String = a.to_owned();
    let ob: String = b.to_owned();
    oa.eq(&ob)
}


/// Whether `c` is a blank character.
pub fn is_space_char(c: char) -> (r: bool)
    ensures
        r == is_space(c),
{
    c == ' ' || c == '\t' || c == '\r' || c == '\n'
}

/// Whether `s` would be empty once trimmed: it has no character besides
/// spaces, tabs and line breaks.
pub fn is_blank(s: &str) -> (r: bool)
    ensures
        r == spec_is_blank(s@),
{
    let n = s.unicode_len();
    let mut i: usize = 0;
    while i < n
        invariant
            n == s@.len(),
            i <= n,
            forall|j: int| 0 <= j < i ==> is_space(#[trigger] s@[j]),
        decreases n - i,
    {
        let c = s.get_char(i);
        if !(c == ' ' || c == '\t' || c == '\r' || c == '\n') {
            return false;
        }
        i = i + 1;
    }
    true
}

/// The lower-case form of `s`, as the standard library's Unicode case
/// folding computes it; it depends on the characters alone.
pub uninterp spec fn lower_of(s: Seq<char>) -> Seq<char>;

/// Relies on `str::to_lowercase`: Unicode lowercasing, a function of the
/// characters alone; an empty string stays empty.
#[verifier::external_body]
pub fn to_lowercase(s: &str) -> (r: String)
    ensures
        r@ == lower_of(s@),
        s@.len() == 0 ==> r@.len() == 0,
{
    s.to_lowercase()
}

/// `s` with each leftmost non-overlapping occurrence of `from` replaced by
/// `to`, scanning left to right.
pub open spec fn spec_replace(s: Seq<char>, from: Seq<char>, to: Seq<char>) -> Seq<char>
    decreases s.len(),
{
    if from.len() == 0 {
        s
    } else if s.len() < from.len() {
        s
    } else if s.take(from.len() as int) == from {
        to + spec_replace(s.skip(from.len() as int), from, to)
    } else {
        seq![s[0]] + spec_replace(s.skip(1), from, to)
    }
}

/// Relies on `str::replace`: replaces the leftmost non-overlapping
/// occurrences of `from`, left to right.
#[verifier::external_body]
fn replace_literal(s: &str, from: &str, to: &str) -> (r: String)
    requires
        from@.len() > 0,
    ensures
        r@ == spec_replace(s@, from@, to@),
{
    s.replace(from, to)
}

/// What sanitising strips, in order.
pub open spec fn spec_sanitize(s: Seq<char>) -> Seq<char> {
    let gone = Seq::<char>::empty();
    spec_replace(
        spec_replace(
            spec_replace(
                spec_replace(
                    spec_replace(
                        spec_replace(
                            spec_replace(
                                spec_replace(s, "<script>"@, gone),
                                "</script>"@,
                                gone,
                            ),
                            "<iframe>"@,
                            gone,
                        ),
                        "</iframe>"@,
                        gone,
                    ),
                    "javascript:"@,
                    gone,
                ),
                "onclick"@,
                gone,
            ),
            "onload"@,
            gone,
        ),
        "onerror"@,
        gone,
    )
}

/// Strips script and iframe tags, javascript URLs and inline event
/// handlers from `input`, each replaced by nothing, in a fixed order.
pub fn sanitize_html(input: &str) -> (r: String)
    ensures
        r@ == spec_sanitize(input@),
{
    proof {
        reveal_strlit("<script>");
        reveal_strlit("</script>");
        reveal_strlit("<iframe>");
        reveal_strlit("</iframe>");
        reveal_strlit("javascript:");
        reveal_strlit("onclick");
        reveal_strlit("onload");
        reveal_strlit("onerror");
        reveal_strlit("");
        assert(""@ =~= Seq::<char>::empty());
    }
    let s1 = replace_literal(input, "<script>", "");
    let s2 = replace_literal(s1.as_str(), "</script>", "");
    let s3 = replace_literal(s2.as_str(), "<iframe>", "");
    let s4 = replace_literal(s3.as_str(), "</iframe>", "");
    let s5 = replace_literal(s4.as_str(), "javascript:", "");
    let s6 = replace_literal(s5.as_str(), "onclick", "");
    let s7 = replace_literal(s6.as_str(), "onload", "");
    replace_literal(s7.as_str(), "onerror", "")
}

/// The first `max` characters of `s`, with a trailing ellipsis when
/// something was cut.
pub open spec fn spec_truncate(s: Seq<char>, max: int) -> Seq<char> {
    if s.len() <= max {
        s
    } else {
        s.take(max) + "..."@
    }
}

/// Cuts `text` to at most `max_length` characters, marking a cut with a
/// trailing ellipsis.
pub fn truncate_text(text: &str, max_length: usize) -> (r: String)
    ensures
        r@ == spec_truncate(text@, max_length as int),
{
    let n = text.unicode_len();
    if n <= max_length {
        text.to_owned()
    } else {
        let head = text.substring_char(0, max_length);
        proof {
            assert(head@ =~= text@.take(max_length as int));
        }
        head.to_owned().concat("...")
    }
}

/// Whether `address` has the shape of a ledger address as the boundary
/// accepts it: 26 to 35 characters, starting with `1`.
pub fn validate_address(address: &str) -> (r: bool)
    ensures
        r == (26 <= address@.len() <= 35 && address@[0] == '1'),
{
    let n = address.unicode_len();
    if n < 26 || n > 35 {
        return false;
    }
    address.get_char(0) == '1'
}

/// Author reputation: ten points a post, five a comment, two a received
/// like.
pub fn calculate_reputation(posts_count: u32, comments_count: u32, likes_received: u32) -> (r: u32)
    requires
        posts_count * 10 + comments_count * 5 + likes_received * 2 <= u32::MAX,
    ensures
        r == posts_count * 10 + comments_count * 5 + likes_received * 2,
{
    posts_count * 10 + comments_count * 5 + likes_received * 2
}

/// The character of a single decimal digit.
pub open spec fn digit_char(d: int) -> char {
    if d == 0 {
        '0'
    } else if d == 1 {
        '1'
    } else if d == 2 {
        '2'
    } else if d == 3 {
        '3'
    } else if d == 4 {
        '4'
    } else if d == 5 {
        '5'
    } else if d == 6 {
        '6'
    } else if d == 7 {
        '7'
    } else if d == 8 {
        '8'
    } else {
        '9'
    }
}

/// The decimal digits of a non-negative number.
pub open spec fn spec_decimal(n: int) -> Seq<char>
    decreases n,
{
    if n < 10 {
        seq![digit_char(n)]
    } else {
        spec_decimal(n / 10) + seq![digit_char(n % 10)]
    }
}

/// The one-character text of a decimal digit.
fn digit_str(d: u64) -> (r: String)
    requires
        d < 10,
    ensures
        r@ == seq![digit_char(d as int)],
{
    proof {
        reveal_strlit("0");
        reveal_strlit("1");
        reveal_strlit("2");
        reveal_strlit("3");
        reveal_strlit("4");
        reveal_strlit("5");
        reveal_strlit("6");
        reveal_strlit("7");
        reveal_strlit("8");
        reveal_strlit("9");
    }
    let r = if d == 0 {
        "0".to_owned()
    } else if d == 1 {
        "1".to_owned()
    } else if d == 2 {
        "2".to_owned()
    } else if d == 3 {
        "3".to_owned()
    } else if d == 4 {
        "4".to_owned()
    } else if d == 5 {
        "5".to_owned()
    } else if d == 6 {
        "6".to_owned()
    } else if d == 7 {
        "7".to_owned()
    } else if d == 8 {
        "8".to_owned()
    } else {
        "9".to_owned()
    };
    proof {
        assert(r@ =~= seq![digit_char(d as int)]);
    }
    r
}

/// Renders `n` in decimal.
pub fn u64_to_string(n: u64) -> (r: String)
    ensures
        r@ == spec_decimal(n as int),
    decreases n,
{
    if n < 10 {
        digit_str(n)
    } else {
        let rest = u64_to_string(n / 10);
        let last = digit_str(n % 10);
        rest.concat(last.as_str())
    }
}

/// What the relative-time formatter prints for a timestamp `ts` read at
/// time `now`: `just` under a minute, then minutes, hours and days, and
/// the full date from thirty days on.
pub open spec fn spec_relative_time(ts: int, now: int) -> Seq<char> {
    let d = now - ts;
    if d < 60 {
        "just"@
    } else if d < 3600 {
        spec_decimal(d / 60) + "Minutes ago"@
    } else if d < 86400 {
        spec_decimal(d / 3600) + "Hours ago"@
    } else if d < 2592000 {
        spec_decimal(d / 86400) + "Days ago"@
    } else {
        crate::clock::timestamp_text(ts)
    }
}

/// Formats how long before `now` the Unix second `ts` lies, coarsening
/// with distance and falling back to the full date after thirty days.
pub fn format_relative_time(ts: i64, now: i64) -> (r: String)
    requires
        0 <= ts <= crate::clock::MAX_FORMAT_TIMESTAMP,
        0 <= now <= crate::clock::MAX_FORMAT_TIMESTAMP,
    ensures
        r@ == spec_relative_time(ts as int, now as int),
{
    let d: i64 = now - ts;
    if d < 60 {
        "just".to_owned()
    } else if d < 3600 {
        u64_to_string((d / 60) as u64).concat("Minutes ago")
    } else if d < 86400 {
        u64_to_string((d / 3600) as u64).concat("Hours ago")
    } else if d < 2592000 {
        u64_to_string((d / 86400) as u64).concat("Days ago")
    } else {
        crate::clock::format_timestamp(ts)
    }
}

/// The character sequences of a sequence of strings.
pub open spec fn views_of(v: Seq<String>) -> Seq<Seq<char>> {
    v.map_values(|w: String| w@)
}

/// The words of `s` from position `i` on, `cur` being the word read so
/// far: a blank (or the end) flushes a non-empty `cur`, anything else
/// extends it.
pub open spec fn spec_words_from(s: Seq<char>, i: int, cur: Seq<char>) -> Seq<Seq<char>>
    decreases s.len() - i,
{
    if i < 0 || i >= s.len() {
        if cur.len() > 0 {
            seq![cur]
        } else {
            Seq::<Seq<char>>::empty()
        }
    } else if is_space(s[i]) {
        (if cur.len() > 0 {
            seq![cur]
        } else {
            Seq::<Seq<char>>::empty()
        }) + spec_words_from(s, i + 1, Seq::<char>::empty())
    } else {
        spec_words_from(s, i + 1, cur.push(s[i]))
    }
}

/// The blank-separated words of `s`.
pub open spec fn spec_words(s: Seq<char>) -> Seq<Seq<char>> {
    spec_words_from(s, 0, Seq::<char>::empty())
}

/// The tags the words name, from position `i` on, lower-cased, in order
/// and with repeats still present: a word beginning `#` names its rest,
/// and a bare `#` names the following word.
pub open spec fn spec_tag_candidates(ws: Seq<Seq<char>>, i: int) -> Seq<Seq<char>>
    decreases ws.len() - i,
{
    if i < 0 || i >= ws.len() {
        Seq::<Seq<char>>::empty()
    } else {
        let w = ws[i];
        let rest = spec_tag_candidates(ws, i + 1);
        if w.len() > 1 && w[0] == '#' {
            seq![lower_of(w.skip(1))] + rest
        } else if w == seq!['#'] && i + 1 < ws.len() {
            seq![lower_of(ws[i + 1])] + rest
        } else {
            rest
        }
    }
}

/// `s` with every later repeat of an element dropped.
pub open spec fn spec_dedup(s: Seq<Seq<char>>) -> Seq<Seq<char>>
    decreases s.len(),
{
    if s.len() == 0 {
        Seq::<Seq<char>>::empty()
    } else {
        let d = spec_dedup(s.drop_last());
        if d.contains(s.last()) {
            d
        } else {
            d.push(s.last())
        }
    }
}

/// The tags of `content`: the distinct lower-cased tag names its words
/// carry, in order of first appearance.
pub open spec fn spec_extract_tags(s: Seq<char>) -> Seq<Seq<char>> {
    spec_dedup(spec_tag_candidates(spec_words(s), 0))
}

/// Reading on from `a` to `b` over non-blank characters only extends the
/// current word by exactly those characters.
proof fn lemma_words_scan(s: Seq<char>, a: int, b: int, cur: Seq<char>)
    requires
        0 <= a <= b <= s.len(),
        forall|k: int| a <= k < b ==> !is_space(#[trigger] s[k]),
    ensures
        spec_words_from(s, a, cur) == spec_words_from(s, b, cur + s.subrange(a, b)),
    decreases b - a,
{
    if a == b {
        assert(cur + s.subrange(a, b) =~= cur);
    } else {
        lemma_words_scan(s, a + 1, b, cur.push(s[a]));
        assert(cur.push(s[a]) + s.subrange(a + 1, b) =~= cur + s.subrange(a, b));
    }
}

/// Splits `s` at blanks into its non-empty words, in order.
pub fn split_words(s: &str) -> (r: Vec<String>)
    ensures
        views_of(r@) == spec_words(s@),
{
    let n = s.unicode_len();
    let mut words: Vec<String> = Vec::new();
    let mut i: usize = 0;
    while i < n
        invariant
            n == s@.len(),
            i <= n,
            spec_words(s@) == views_of(words@) + spec_words_from(s@, i as int, Seq::<char>::empty()),
        decreases n - i,
    {
        let c = s.get_char(i);
        if c == ' ' || c == '\t' || c == '\r' || c == '\n' {
            proof {
                assert(spec_words_from(s@, i as int, Seq::<char>::empty()) == spec_words_from(
                    s@,
                    i + 1,
                    Seq::<char>::empty(),
                ));
            }
            i = i + 1;
        } else {
            let start = i;
            let mut j = i;
            while j < n && !is_space_char(s.get_char(j))
                invariant
                    n == s@.len(),
                    start <= j <= n,
                    forall|k: int| start <= k < j ==> !is_space(#[trigger] s@[k]),
                decreases n - j,
            {
                j = j + 1;
            }
            let word = s.substring_char(start, j).to_owned();
            proof {
                assert(word@ == s@.subrange(start as int, j as int));
                lemma_words_scan(s@, start as int, j as int, Seq::<char>::empty());
                assert(Seq::<char>::empty() + s@.subrange(start as int, j as int) =~= word@);
                assert(word@.len() > 0);
            }
            words.push(word);
            proof {
                assert(views_of(words@) =~= views_of(words@.drop_last()).push(word@));
            }
            if j < n {
                proof {
                    assert(spec_words_from(s@, j as int, word@) == seq![word@] + spec_words_from(
                        s@,
                        j + 1,
                        Seq::<char>::empty(),
                    ));
                    assert(views_of(words@) + spec_words_from(s@, j + 1, Seq::<char>::empty())
                        =~= views_of(words@.drop_last()) + (seq![word@] + spec_words_from(
                        s@,
                        j + 1,
                        Seq::<char>::empty(),
                    )));
                }
                i = j + 1;
            } else {
                proof {
                    assert(spec_words_from(s@, j as int, word@) == seq![word@]);
                    assert(spec_words_from(s@, n as int, Seq::<char>::empty())
                        == Seq::<Seq<char>>::empty());
                    assert(views_of(words@) + spec_words_from(s@, n as int, Seq::<char>::empty())
                        =~= views_of(words@.drop_last()) + (seq![word@]));
                }
                i = j;
            }
        }
    }
    proof {
        assert(spec_words_from(s@, n as int, Seq::<char>::empty()) == Seq::<Seq<char>>::empty());
        assert(views_of(words@) + Seq::<Seq<char>>::empty() =~= views_of(words@));
    }
    words
}

/// Collects the lower-cased tag names of `words`, repeats included.
fn collect_tag_candidates(words: &Vec<String>) -> (r: Vec<String>)
    ensures
        views_of(r@) == spec_tag_candidates(views_of(words@), 0),
{
    proof {
        reveal_strlit("#");
    }
    let n = words.len();
    let mut out: Vec<String> = Vec::new();
    let mut i: usize = 0;
    while i < n
        invariant
            n == words@.len(),
            i <= n,
            spec_tag_candidates(views_of(words@), 0) == views_of(out@) + spec_tag_candidates(
                views_of(words@),
                i as int,
            ),
            "#"@ == seq!['#'],
        decreases n - i,
    {
        let w = &words[i];
        let wl = w.as_str().unicode_len();
        let ghost ws = views_of(words@);
        proof {
            assert(ws[i as int] == words@[i as int]@);
        }
        if wl > 1 && w.as_str().get_char(0) == '#' {
            let stem = w.as_str().substring_char(1, wl);
            let tag = to_lowercase(stem);
            proof {
                assert(stem@ =~= ws[i as int].skip(1));
            }
            out.push(tag);
            proof {
                assert(views_of(out@) =~= views_of(out@.drop_last()).push(lower_of(
                    ws[i as int].skip(1),
                )));
                assert(views_of(out@.drop_last()) + (seq![lower_of(ws[i as int].skip(1))]
                    + spec_tag_candidates(ws, i + 1)) =~= views_of(out@) + spec_tag_candidates(
                    ws,
                    i + 1,
                ));
            }
        } else if str_eq(w.as_str(), "#") && i + 1 < n {
            let tag = to_lowercase(words[i + 1].as_str());
            proof {
                assert(ws[i as int] == seq!['#']);
                assert(ws[i + 1] == words@[i + 1]@);
            }
            out.push(tag);
            proof {
                assert(views_of(out@) =~= views_of(out@.drop_last()).push(lower_of(ws[i + 1])));
                assert(views_of(out@.drop_last()) + (seq![lower_of(ws[i + 1])]
                    + spec_tag_candidates(ws, i + 1)) =~= views_of(out@) + spec_tag_candidates(
                    ws,
                    i + 1,
                ));
            }
        } else {
            proof {
                assert(!(ws[i as int].len() > 1 && ws[i as int][0] == '#'));
                assert(!(ws[i as int] == seq!['#'] && i + 1 < ws.len()));
            }
        }
        i = i + 1;
    }
    out
}

/// Drops every later repeat, keeping first appearances in order.
fn dedup_tags(cands: Vec<String>) -> (r: Vec<String>)
    ensures
        views_of(r@) == spec_dedup(views_of(cands@)),
{
    let n = cands.len();
    let mut out: Vec<String> = Vec::new();
    let mut i: usize = 0;
    while i < n
        invariant
            n == cands@.len(),
            i <= n,
            views_of(out@) == spec_dedup(views_of(cands@).take(i as int)),
        decreases n - i,
    {
        let cand = &cands[i];
        let m = out.len();
        let mut seen = false;
        let mut j: usize = 0;
        while j < m && !seen
            invariant
                m == out@.len(),
                j <= m,
                seen ==> exists|k: int| 0 <= k < m && (#[trigger] out@[k])@ == cand@,
                !seen ==> forall|k: int| 0 <= k < j ==> (#[trigger] out@[k])@ != cand@,
            decreases (if seen { 0int } else { 1int }), m - j,
        {
            if str_eq(out[j].as_str(), cand.as_str()) {
                seen = true;
            } else {
                j = j + 1;
            }
        }
        let ghost cv = views_of(cands@);
        let ghost ov = views_of(out@);
        proof {
            assert(seen == ov.contains(cv[i as int])) by {
                if seen {
                    let k = choose|k: int| 0 <= k < m && (#[trigger] out@[k])@ == cand@;
                    assert(ov[k] == cv[i as int]);
                } else {
                    if ov.contains(cv[i as int]) {
                        let k = choose|k: int| 0 <= k < ov.len() && ov[k] == cv[i as int];
                        assert(out@[k]@ == cand@);
                    }
                }
            }
            assert(cv.take(i + 1).drop_last() =~= cv.take(i as int));
            assert(cv.take(i + 1).last() == cv[i as int]);
        }
        if !seen {
            out.push(cand.clone());
            proof {
                assert(views_of(out@) =~= ov.push(cv[i as int]));
            }
        }
        i = i + 1;
    }
    proof {
        assert(views_of(cands@).take(n as int) =~= views_of(cands@));
    }
    out
}

/// The distinct tags of `content`, lower-cased, in order of first
/// appearance: a word beginning `#` names the rest of that word, and a
/// bare `#` names the word after it.
pub fn extract_tags_from_content(content: &str) -> (r: Vec<String>)
    ensures
        views_of(r@) == spec_extract_tags(content@),
{
    let words = split_words(content);
    let cands = collect_tag_candidates(&words);
    dedup_tags(cands)
}

/// The gravatar address for a ledger address: the digest of its lower-case
/// form, between a fixed host prefix and icon suffix.
pub open spec fn spec_avatar_url(address: Seq<char>) -> Seq<char> {
    "https://www.gravatar.com/avatar/"@ + crate::crypto::md5_hex_of(lower_of(address))
        + "?d=identicon&s=64"@
}

/// Builds the avatar address for `address`.
pub fn generate_avatar_url(address: &str) -> (r: String)
    ensures
        r@ == spec_avatar_url(address@),
{
    let lower = to_lowercase(address);
    let digest = crate::crypto::md5_hex(lower.as_str());
    "https://www.gravatar.com/avatar/".to_owned().concat(digest.as_str()).concat(
        "?d=identicon&s=64",
    )
}

} // verus!
