//! Plain text out of HTML bodies, for previews and for the search index.
use vstd::prelude::*;
use vstd::slice::slice_subrange;
use crate::text::{
    contains_string, string_set,
    chars_eq, chars_eq_ignore_case, eq_ignore_case, first_occurrence, first_occurrence_ignore_case,
    append_chars, chars_of, is_whitespace_char, is_ws, trim, trim_chars, collapse_whitespace, collapse_ws, matches_at, occurs_at,
    string_from_chars, find, find_ignore_case, is_ascii_alnum, opt_int, is_ascii_alnum_char, is_ascii_alpha, is_first_occurrence,
    is_first_occurrence_ignore_case, literal, lower_chars, lower_seq, slice_range, trim_end,
    trim_end_index, trim_start, trim_start_index, lemma_first_occurrence_unique,
};

verus! {

// ---------------------------------------------------------------------------
// Tags
// ---------------------------------------------------------------------------

/// Characters that may appear in a tag name.
pub open spec fn is_name_char(c: char) -> bool {
    is_ascii_alnum(c) || c == '-' || c == ':'
}

/// The length of the run of name characters that starts `s`.
pub open spec fn name_len(s: Seq<char>) -> nat
    decreases s.len(),
{
    if s.len() > 0 && is_name_char(s[0]) {
        1 + name_len(s.drop_first())
    } else {
        0
    }
}

/// A parsed tag: its name, whether it closes (`</p>`), whether it closes
/// itself (`<br/>`), and the index just past its `>`.
pub type TagView = (Seq<char>, bool, bool, int);

/// The tag that starts `input`, if `input` starts with one: `<`, then up to
/// the first `>`; inside, optional white space, an optional `/` and white
/// space, then a name that starts with an ASCII letter.
pub open spec fn spec_parse_tag(input: Seq<char>) -> Option<TagView> {
    if input.len() == 0 || input[0] != '<' {
        None
    } else {
        match first_occurrence(input, 0, seq!['>']) {
            None => None,
            Some(gt) => {
                let inner0 = trim_start(input.subrange(1, gt));
                let closing = inner0.len() > 0 && inner0[0] == '/';
                let inner = if closing {
                    trim_start(inner0.drop_first())
                } else {
                    inner0
                };
                let name = inner.take(name_len(inner) as int);
                if name.len() == 0 || !is_ascii_alpha(name[0]) {
                    None
                } else {
                    let t = trim_end(inner);
                    Some((name, closing, t.len() > 0 && t.last() == '/', gt + 1))
                }
            },
        }
    }
}

/// A tag found at the start of some text.
pub struct HtmlTag {
    pub name: Vec<char>,
    pub is_closing: bool,
    pub is_self_closing: bool,
    pub end_index: usize,
}

impl HtmlTag {
    pub open spec fn view(&self) -> TagView {
        (self.name@, self.is_closing, self.is_self_closing, self.end_index as int)
    }
}

/// A found occurrence is a first occurrence.
pub proof fn lemma_first_occurrence_some(s: Seq<char>, from: int, pat: Seq<char>)
    ensures
        first_occurrence(s, from, pat) matches Some(i) ==> is_first_occurrence(s, from, pat, i),
        first_occurrence_ignore_case(s, from, pat) matches Some(i)
            ==> is_first_occurrence_ignore_case(s, from, pat, i),
{
}

/// A parsed tag ends after its `<` and within its input.
pub proof fn lemma_parse_tag_bounds(input: Seq<char>)
    ensures
        spec_parse_tag(input) matches Some(t) ==> 2 <= t.3 <= input.len(),
{
    lemma_first_occurrence_some(input, 0, seq!['>']);
    if let Some(gt) = first_occurrence(input, 0, seq!['>']) {
        if gt == 0 {
            assert(input.subrange(0, 1)[0] == '>');
        }
    }
}

/// The length of the run of name characters at the start of `s`.
fn name_length(s: &[char]) -> (n: usize)
    ensures
        n == name_len(s@),
        n <= s@.len(),
{
    let mut n: usize = 0;
    assert(s@.skip(0) =~= s@);
    while n < s.len() && (is_ascii_alnum_char(s[n]) || s[n] == '-' || s[n] == ':')
        invariant
            n <= s@.len(),
            name_len(s@) == n + name_len(s@.skip(n as int)),
        decreases s@.len() - n,
    {
        assert(s@.skip(n as int).drop_first() =~= s@.skip(n + 1));
        n = n + 1;
    }
    assert(name_len(s@.skip(n as int)) == 0) by {
        if n < s@.len() {
            assert(s@.skip(n as int)[0] == s@[n as int]);
        }
    }
    n
}

/// The tag at the start of `input`, if there is one.
pub fn parse_html_tag(input: &[char]) -> (r: Option<HtmlTag>)
    ensures
        match r {
            Some(t) => spec_parse_tag(input@) == Some(t.view()),
            None => spec_parse_tag(input@) is None,
        },
{
    if input.len() == 0 || input[0] != '<' {
        return None;
    }
    let gt_pat = vec!['>'];
    assert(gt_pat@ == seq!['>']);
    let gt = match find(input, 0, gt_pat.as_slice()) {
        None => return None,
        Some(gt) => gt,
    };
    assert(gt_pat@ == seq!['>']);
    proof {
        if gt == 0 {
            assert(input@.subrange(0, 1)[0] == '>');
        }
    }
    let inner_raw = slice_subrange(input, 1, gt);
    let st = trim_start_index(inner_raw);
    let inner0 = slice_subrange(inner_raw, st, inner_raw.len());
    assert(inner0@ == trim_start(input@.subrange(1, gt as int)));
    let closing = inner0.len() > 0 && inner0[0] == '/';
    let inner: &[char] = if closing {
        let inner1 = slice_subrange(inner0, 1, inner0.len());
        assert(inner1@ =~= inner0@.drop_first());
        let st2 = trim_start_index(inner1);
        slice_subrange(inner1, st2, inner1.len())
    } else {
        inner0
    };
    let nl = name_length(inner);
    if nl == 0 || !(('a' <= inner[0] && inner[0] <= 'z') || ('A' <= inner[0] && inner[0] <= 'Z')) {
        proof {
            if nl > 0 {
                assert(inner@.take(nl as int)[0] == inner@[0]);
            }
        }
        return None;
    }
    let name = slice_range(inner, 0, nl);
    assert(name@ =~= inner@.take(nl as int));
    let te = trim_end_index(inner, 0);
    assert(inner@.subrange(0, inner@.len() as int) =~= inner@);
    let self_closing = te > 0 && inner[te - 1] == '/';
    proof {
        if te > 0 {
            assert(trim_end(inner@).last() == inner@[te - 1]);
        }
    }
    Some(HtmlTag { name, is_closing: closing, is_self_closing: self_closing, end_index: gt + 1 })
}

/// `script` and `style`, whose content is not text, in any ASCII case.
pub open spec fn is_raw_text_tag(name: Seq<char>) -> bool {
    eq_ignore_case(name, "script"@) || eq_ignore_case(name, "style"@)
}

/// Whether `name` is `script` or `style` in any ASCII case.
pub fn is_html_raw_text_tag(name: &[char]) -> (r: bool)
    ensures
        r == is_raw_text_tag(name@),
{
    let script = literal("script");
    let style = literal("style");
    chars_eq_ignore_case(name, script.as_slice()) || chars_eq_ignore_case(name, style.as_slice())
}

/// The block-level tags that separate words.
pub open spec fn is_break_tag(name: Seq<char>) -> bool {
    let l = lower_seq(name);
    ||| l == "address"@
    ||| l == "article"@
    ||| l == "aside"@
    ||| l == "blockquote"@
    ||| l == "br"@
    ||| l == "dd"@
    ||| l == "div"@
    ||| l == "dl"@
    ||| l == "dt"@
    ||| l == "figcaption"@
    ||| l == "figure"@
    ||| l == "footer"@
    ||| l == "h1"@
    ||| l == "h2"@
    ||| l == "h3"@
    ||| l == "h4"@
    ||| l == "h5"@
    ||| l == "h6"@
    ||| l == "header"@
    ||| l == "hr"@
    ||| l == "li"@
    ||| l == "main"@
    ||| l == "nav"@
    ||| l == "ol"@
    ||| l == "p"@
    ||| l == "pre"@
    ||| l == "section"@
    ||| l == "table"@
    ||| l == "td"@
    ||| l == "th"@
    ||| l == "tr"@
    ||| l == "ul"@
}

/// Whether `name` is a block-level tag that separates words.
pub fn inserts_text_break(name: &[char]) -> (r: bool)
    ensures
        r == is_break_tag(name@),
{
    let l = lower_chars(name);
    let names: [&str; 32] = [
        "address",
        "article",
        "aside",
        "blockquote",
        "br",
        "dd",
        "div",
        "dl",
        "dt",
        "figcaption",
        "figure",
        "footer",
        "h1",
        "h2",
        "h3",
        "h4",
        "h5",
        "h6",
        "header",
        "hr",
        "li",
        "main",
        "nav",
        "ol",
        "p",
        "pre",
        "section",
        "table",
        "td",
        "th",
        "tr",
        "ul",
    ];
    let mut k: usize = 0;
    while k < 32
        invariant
            k <= 32,
            names@ == seq![
                "address",
                "article",
                "aside",
                "blockquote",
                "br",
                "dd",
                "div",
                "dl",
                "dt",
                "figcaption",
                "figure",
                "footer",
                "h1",
                "h2",
                "h3",
                "h4",
                "h5",
                "h6",
                "header",
                "hr",
                "li",
                "main",
                "nav",
                "ol",
                "p",
                "pre",
                "section",
                "table",
                "td",
                "th",
                "tr",
                "ul",
            ],
            l@ == lower_seq(name@),
            forall|j: int| 0 <= j < k ==> l@ != (#[trigger] names@[j])@,
        decreases 32 - k,
    {
        let candidate = literal(names[k]);
        if chars_eq(l.as_slice(), candidate.as_slice()) {
            return true;
        }
        k = k + 1;
    }
    assert(!is_break_tag(name@)) by {
        assert(l@ != names@[0]@);
        assert(l@ != names@[1]@);
        assert(l@ != names@[2]@);
        assert(l@ != names@[3]@);
        assert(l@ != names@[4]@);
        assert(l@ != names@[5]@);
        assert(l@ != names@[6]@);
        assert(l@ != names@[7]@);
        assert(l@ != names@[8]@);
        assert(l@ != names@[9]@);
        assert(l@ != names@[10]@);
        assert(l@ != names@[11]@);
        assert(l@ != names@[12]@);
        assert(l@ != names@[13]@);
        assert(l@ != names@[14]@);
        assert(l@ != names@[15]@);
        assert(l@ != names@[16]@);
        assert(l@ != names@[17]@);
        assert(l@ != names@[18]@);
        assert(l@ != names@[19]@);
        assert(l@ != names@[20]@);
        assert(l@ != names@[21]@);
        assert(l@ != names@[22]@);
        assert(l@ != names@[23]@);
        assert(l@ != names@[24]@);
        assert(l@ != names@[25]@);
        assert(l@ != names@[26]@);
        assert(l@ != names@[27]@);
        assert(l@ != names@[28]@);
        assert(l@ != names@[29]@);
        assert(l@ != names@[30]@);
        assert(l@ != names@[31]@);
    }
    false
}


// ---------------------------------------------------------------------------
// Closing tags of raw text elements
// ---------------------------------------------------------------------------

/// Where the closing tag of `tag` ends in `html`, searching from `start`: the
/// first `</tag` (in any ASCII case) that parses as a closing tag of that
/// name; other matches are skipped.
pub open spec fn spec_closing_tag_end(html: Seq<char>, tag: Seq<char>, start: int) -> Option<int>
    decreases html.len() - start,
{
    if start < 0 || start >= html.len() {
        None
    } else {
        let needle = seq!['<', '/'] + tag;
        match first_occurrence_ignore_case(html, start, needle) {
            None => None,
            Some(ci) => {
                let found = spec_parse_tag(html.skip(ci));
                if is_closing_tag_named(found, tag) {
                    Some(ci + tag_end(found))
                } else if start < ci + needle.len() <= html.len() {
                    spec_closing_tag_end(html, tag, ci + needle.len())
                } else {
                    None
                }
            },
        }
    }
}

/// `found` is a closing tag with the name `tag`, in any ASCII case.
pub open spec fn is_closing_tag_named(found: Option<TagView>, tag: Seq<char>) -> bool {
    match found {
        Some(t) => t.1 && eq_ignore_case(t.0, tag),
        None => false,
    }
}

/// The end index of a found tag.
pub open spec fn tag_end(found: Option<TagView>) -> int {
    match found {
        Some(t) => t.3,
        None => 0,
    }
}

/// A closing tag ends after the search start and within the text.
pub proof fn lemma_closing_tag_end_bounds(html: Seq<char>, tag: Seq<char>, start: int)
    ensures
        spec_closing_tag_end(html, tag, start) matches Some(e) ==> start < e <= html.len(),
    decreases html.len() - start,
{
    if 0 <= start < html.len() {
        let needle = seq!['<', '/'] + tag;
        lemma_first_occurrence_some(html, start, needle);
        if let Some(ci) = first_occurrence_ignore_case(html, start, needle) {
            let found = spec_parse_tag(html.skip(ci));
            lemma_parse_tag_bounds(html.skip(ci));
            if !is_closing_tag_named(found, tag) {
                if start < ci + needle.len() <= html.len() {
                    lemma_closing_tag_end_bounds(html, tag, ci + needle.len());
                }
            }
        }
    }
}

/// Where the closing tag of `tag` ends in `html`, if it is there.
pub fn find_html_closing_tag_end(html: &[char], tag: &[char]) -> (r: Option<usize>)
    ensures
        opt_int(r) == spec_closing_tag_end(html@, tag@, 0),
{
    let mut needle = vec!['<', '/'];
    append_chars(&mut needle, tag);
    assert(needle@ == seq!['<', '/'] + tag@);
    let mut search_start: usize = 0;
    while search_start < html.len()
        invariant
            needle@ == seq!['<', '/'] + tag@,
            spec_closing_tag_end(html@, tag@, 0) == spec_closing_tag_end(
                html@,
                tag@,
                search_start as int,
            ),
        decreases html@.len() - search_start,
    {
        let ci = match find_ignore_case(html, search_start, needle.as_slice()) {
            None => return None,
            Some(ci) => ci,
        };
        let rest = slice_subrange(html, ci, html.len());
        assert(rest@ =~= html@.skip(ci as int));
        proof {
            lemma_parse_tag_bounds(rest@);
        }
        if let Some(t) = parse_html_tag(rest) {
            if t.is_closing && chars_eq_ignore_case(t.name.as_slice(), tag) {
                return Some(ci + t.end_index);
            }
        }
        search_start = ci + needle.len();
    }
    None
}

// ---------------------------------------------------------------------------
// Character references
// ---------------------------------------------------------------------------

/// The number of bytes UTF-8 uses for `c`.
pub open spec fn utf8_len(c: char) -> nat {
    let u = c as u32;
    if u < 0x80 {
        1
    } else if u < 0x800 {
        2
    } else if u < 0x10000 {
        3
    } else {
        4
    }
}

/// The number of bytes UTF-8 uses for `s`.
pub open spec fn utf8_len_seq(s: Seq<char>) -> nat
    decreases s.len(),
{
    if s.len() == 0 {
        0
    } else {
        utf8_len_seq(s.drop_last()) + utf8_len(s.last())
    }
}

/// A longer prefix takes at least as many bytes.
pub proof fn lemma_utf8_len_prefix(s: Seq<char>, a: int, b: int)
    requires
        0 <= a <= b <= s.len(),
    ensures
        utf8_len_seq(s.take(a)) <= utf8_len_seq(s.take(b)),
    decreases b - a,
{
    if a < b {
        assert(s.take(b).drop_last() =~= s.take(b - 1));
        lemma_utf8_len_prefix(s, a, b - 1);
    }
}

/// The number of bytes UTF-8 uses for `c`.
fn utf8_width(c: char) -> (n: usize)
    ensures
        n == utf8_len(c),
{
    let u = c as u32;
    if u < 0x80 {
        1
    } else if u < 0x800 {
        2
    } else if u < 0x10000 {
        3
    } else {
        4
    }
}

/// The text a named character reference stands for; unknown names stand for nothing.
pub open spec fn entity_text(name: Seq<char>) -> Seq<char> {
    if name == seq!['n', 'b', 's', 'p'] {
        seq![' ']
    } else if name == seq!['a', 'm', 'p'] {
        seq!['&']
    } else if name == seq!['l', 't'] {
        seq!['<']
    } else if name == seq!['g', 't'] {
        seq!['>']
    } else if name == seq!['q', 'u', 'o', 't'] {
        seq!['"']
    } else if name == seq!['a', 'p', 'o', 's'] {
        seq!['\'']
    } else {
        Seq::empty()
    }
}

/// The character reference that starts `input`: `&`, a name of at most
/// twelve bytes, `;`. Gives its text and how many characters it spans.
pub open spec fn spec_decode_entity(input: Seq<char>) -> Option<(Seq<char>, int)> {
    if input.len() == 0 || input[0] != '&' {
        None
    } else {
        let rest = input.drop_first();
        match first_occurrence(rest, 0, seq![';']) {
            None => None,
            Some(semi) => if utf8_len_seq(rest.take(semi)) > 12 {
                None
            } else {
                Some((entity_text(rest.take(semi)), semi + 2))
            },
        }
    }
}

/// The character reference at the start of `input`, decoded, with the
/// number of characters it spans.
pub fn decode_html_entity(input: &[char]) -> (r: Option<(Vec<char>, usize)>)
    ensures
        match r {
            Some((text, n)) => spec_decode_entity(input@) == Some((text@, n as int)),
            None => spec_decode_entity(input@) is None,
        },
{
    if input.len() == 0 || input[0] != '&' {
        return None;
    }
    let rest = slice_subrange(input, 1, input.len());
    assert(rest@ =~= input@.drop_first());
    let semi_pat = vec![';'];
    assert(semi_pat@ == seq![';']);
    let semi = match find(rest, 0, semi_pat.as_slice()) {
        None => return None,
        Some(semi) => semi,
    };
    let mut bytes: usize = 0;
    let mut k: usize = 0;
    while k < semi
        invariant
            k <= semi,
            semi < rest@.len(),
            input@.len() > 0,
            input@[0] == '&',
            rest@ == input@.drop_first(),
            first_occurrence(rest@, 0, seq![';']) == Some(semi as int),
            bytes == utf8_len_seq(rest@.take(k as int)),
            bytes <= 12,
        decreases semi - k,
    {
        assert(rest@.take(k + 1).drop_last() =~= rest@.take(k as int));
        assert(rest@.take(k + 1).last() == rest@[k as int]);
        bytes = bytes + utf8_width(rest[k]);
        assert(bytes == utf8_len_seq(rest@.take(k + 1)));
        if bytes > 12 {
            proof {
                lemma_utf8_len_prefix(rest@, k + 1, semi as int);
                assert(utf8_len_seq(rest@.take(semi as int)) > 12);
                assert(first_occurrence(input@.drop_first(), 0, seq![';']) == Some(semi as int));
            }
            return None;
        }
        k = k + 1;
    }
    let name = slice_range(rest, 0, semi);
    assert(name@ =~= rest@.take(semi as int));
    let decoded = if chars_eq(name.as_slice(), vec!['n', 'b', 's', 'p'].as_slice()) {
        vec![' ']
    } else if chars_eq(name.as_slice(), vec!['a', 'm', 'p'].as_slice()) {
        vec!['&']
    } else if chars_eq(name.as_slice(), vec!['l', 't'].as_slice()) {
        vec!['<']
    } else if chars_eq(name.as_slice(), vec!['g', 't'].as_slice()) {
        vec!['>']
    } else if chars_eq(name.as_slice(), vec!['q', 'u', 'o', 't'].as_slice()) {
        vec!['"']
    } else if chars_eq(name.as_slice(), vec!['a', 'p', 'o', 's'].as_slice()) {
        vec!['\'']
    } else {
        Vec::new()
    };
    assert(decoded@ == entity_text(name@));
    Some((decoded, semi + 2))
}


/// A text of ASCII characters takes one byte per character.
proof fn lemma_utf8_len_ascii(s: Seq<char>)
    requires
        forall|i: int| 0 <= i < s.len() ==> (s[i] as u32) < 0x80,
    ensures
        utf8_len_seq(s) == s.len(),
    decreases s.len(),
{
    if s.len() > 0 {
        lemma_utf8_len_ascii(s.drop_last());
    }
}

/// A reference `&name;` whose name is short ASCII without `;` spans the
/// name and its two delimiters, whatever follows it, and gives the text
/// of that name.
proof fn lemma_decode_short_reference(name: Seq<char>, rest: Seq<char>)
    requires
        name.len() <= 12,
        forall|i: int| 0 <= i < name.len() ==> (name[i] as u32) < 0x80 && name[i] != ';',
    ensures
        spec_decode_entity(seq!['&'] + name + seq![';'] + rest) == Some(
            (entity_text(name), name.len() + 2int),
        ),
{
    let input = seq!['&'] + name + seq![';'] + rest;
    let tail = input.drop_first();
    assert(tail =~= name + seq![';'] + rest);
    let n = name.len() as int;
    assert(tail.subrange(n, n + 1) =~= seq![';']);
    assert forall|j: int| 0 <= j < n implies !occurs_at(tail, j, seq![';']) by {
        assert(tail.subrange(j, j + 1)[0] == name[j]);
    }
    assert(is_first_occurrence(tail, 0, seq![';'], n));
    lemma_first_occurrence_unique(tail, 0, seq![';'], n);
    assert(tail.take(n) =~= name);
    lemma_utf8_len_ascii(name);
}

/// Each named character reference decodes to its own character, whatever
/// text follows it: `&lt;` to `<`, `&gt;` to `>`, `&amp;` to `&`,
/// `&quot;` to `"`, `&apos;` to `'` and `&nbsp;` to a space, each read
/// whole with its `&` and `;`.
pub proof fn lemma_named_references_decode(rest: Seq<char>)
    ensures
        spec_decode_entity(seq!['&', 'l', 't', ';'] + rest) == Some((seq!['<'], 4int)),
        spec_decode_entity(seq!['&', 'g', 't', ';'] + rest) == Some((seq!['>'], 4int)),
        spec_decode_entity(seq!['&', 'a', 'm', 'p', ';'] + rest) == Some((seq!['&'], 5int)),
        spec_decode_entity(seq!['&', 'q', 'u', 'o', 't', ';'] + rest) == Some((seq!['"'], 6int)),
        spec_decode_entity(seq!['&', 'a', 'p', 'o', 's', ';'] + rest) == Some((seq!['\''], 6int)),
        spec_decode_entity(seq!['&', 'n', 'b', 's', 'p', ';'] + rest) == Some((seq![' '], 6int)),
{
    let lt = seq!['l', 't'];
    let gt = seq!['g', 't'];
    let amp = seq!['a', 'm', 'p'];
    let quot = seq!['q', 'u', 'o', 't'];
    let apos = seq!['a', 'p', 'o', 's'];
    let nbsp = seq!['n', 'b', 's', 'p'];
    lemma_decode_short_reference(lt, rest);
    lemma_decode_short_reference(gt, rest);
    lemma_decode_short_reference(amp, rest);
    lemma_decode_short_reference(quot, rest);
    lemma_decode_short_reference(apos, rest);
    lemma_decode_short_reference(nbsp, rest);
    assert(seq!['&'] + lt + seq![';'] + rest =~= seq!['&', 'l', 't', ';'] + rest);
    assert(seq!['&'] + gt + seq![';'] + rest =~= seq!['&', 'g', 't', ';'] + rest);
    assert(seq!['&'] + amp + seq![';'] + rest =~= seq!['&', 'a', 'm', 'p', ';'] + rest);
    assert(seq!['&'] + quot + seq![';'] + rest =~= seq!['&', 'q', 'u', 'o', 't', ';'] + rest);
    assert(seq!['&'] + apos + seq![';'] + rest =~= seq!['&', 'a', 'p', 'o', 's', ';'] + rest);
    assert(seq!['&'] + nbsp + seq![';'] + rest =~= seq!['&', 'n', 'b', 's', 'p', ';'] + rest);
    assert(entity_text(lt) == seq!['<']);
    assert(entity_text(gt) == seq!['>']);
    assert(entity_text(amp) == seq!['&']);
    assert(entity_text(quot) == seq!['"']);
    assert(entity_text(apos) == seq!['\'']);
    assert(entity_text(nbsp) == seq![' ']);
}


// ---------------------------------------------------------------------------
// From HTML to text
// ---------------------------------------------------------------------------

/// `s` starts with `p`.
pub open spec fn starts_with(s: Seq<char>, p: Seq<char>) -> bool {
    occurs_at(s, 0, p)
}

/// One step of reading HTML: the text it gives and how many characters it
/// reads. A comment, a `<!...>` or `<?...>` declaration and a tag each give a
/// space (a block-level opening tag two); a `script` or `style` element is
/// skipped up to its closing tag, or to the end if it is not closed; a
/// character reference gives its text; any other character gives itself.
pub open spec fn spec_html_step(s: Seq<char>) -> (Seq<char>, int) {
    if starts_with(s, seq!['<', '!', '-', '-']) {
        (
            seq![' '],
            match first_occurrence(s, 0, seq!['-', '-', '>']) {
                Some(e) => e + 3,
                None => s.len() as int,
            },
        )
    } else if starts_with(s, seq!['<', '!']) || starts_with(s, seq!['<', '?']) {
        (
            seq![' '],
            match first_occurrence(s, 0, seq!['>']) {
                Some(e) => e + 1,
                None => s.len() as int,
            },
        )
    } else if spec_parse_tag(s) is Some {
        let t = spec_parse_tag(s)->0;
        if !t.1 && !t.2 && is_raw_text_tag(t.0) {
            (
                seq![' '],
                match spec_closing_tag_end(s, t.0, 0) {
                    Some(e) => e,
                    None => s.len() as int,
                },
            )
        } else if !t.1 && is_break_tag(t.0) {
            (seq![' ', ' '], t.3)
        } else {
            (seq![' '], t.3)
        }
    } else if spec_decode_entity(s) is Some {
        spec_decode_entity(s)->0
    } else {
        (seq![s[0]], 1)
    }
}

/// The text of `s` read step by step, before white space is collapsed.
pub open spec fn html_scan(s: Seq<char>) -> Seq<char>
    decreases s.len(),
{
    if s.len() == 0 {
        Seq::empty()
    } else {
        let (emit, n) = spec_html_step(s);
        if 0 < n <= s.len() {
            emit + html_scan(s.skip(n))
        } else {
            emit
        }
    }
}

/// Every step reads at least one character and no more than there are.
pub proof fn lemma_html_step_bounds(s: Seq<char>)
    requires
        s.len() > 0,
    ensures
        0 < spec_html_step(s).1 <= s.len(),
{
    lemma_first_occurrence_some(s, 0, seq!['-', '-', '>']);
    lemma_first_occurrence_some(s, 0, seq!['>']);
    lemma_parse_tag_bounds(s);
    if let Some(t) = spec_parse_tag(s) {
        lemma_closing_tag_end_bounds(s, t.0, 0);
    }
    lemma_first_occurrence_some(s.drop_first(), 0, seq![';']);
}

/// Reading text that starts with a short reference `&name;` gives the
/// reference's text, then the reading of what follows it.
proof fn lemma_scan_short_reference(input: Seq<char>, name: Seq<char>, rest: Seq<char>)
    requires
        name.len() <= 12,
        forall|i: int| 0 <= i < name.len() ==> (name[i] as u32) < 0x80 && name[i] != ';',
        input =~= seq!['&'] + name + seq![';'] + rest,
    ensures
        html_scan(input) == entity_text(name) + html_scan(rest),
{
    lemma_decode_short_reference(name, rest);
    assert(input[0] == '&');
    assert(!starts_with(input, seq!['<', '!', '-', '-'])) by {
        if starts_with(input, seq!['<', '!', '-', '-']) {
            assert(input.subrange(0, 4)[0] == '&');
        }
    }
    assert(!starts_with(input, seq!['<', '!'])) by {
        if starts_with(input, seq!['<', '!']) {
            assert(input.subrange(0, 2)[0] == '&');
        }
    }
    assert(!starts_with(input, seq!['<', '?'])) by {
        if starts_with(input, seq!['<', '?']) {
            assert(input.subrange(0, 2)[0] == '&');
        }
    }
    assert(spec_parse_tag(input) is None);
    assert(spec_html_step(input) == (entity_text(name), name.len() + 2int));
    assert(input.skip(name.len() + 2int) =~= rest);
}

/// `&lt;` read as HTML gives '<'.
proof fn lemma_scan_lt(rest: Seq<char>)
    ensures
        html_scan(seq!['&', 'l', 't', ';'] + rest) == seq!['<'] + html_scan(rest),
{
    let name = seq!['l', 't'];
    lemma_scan_short_reference(seq!['&', 'l', 't', ';'] + rest, name, rest);
    assert(entity_text(name) == seq!['<']);
}

/// `&gt;` read as HTML gives '>'.
proof fn lemma_scan_gt(rest: Seq<char>)
    ensures
        html_scan(seq!['&', 'g', 't', ';'] + rest) == seq!['>'] + html_scan(rest),
{
    let name = seq!['g', 't'];
    lemma_scan_short_reference(seq!['&', 'g', 't', ';'] + rest, name, rest);
    assert(entity_text(name) == seq!['>']);
}

/// `&amp;` read as HTML gives '&'.
proof fn lemma_scan_amp(rest: Seq<char>)
    ensures
        html_scan(seq!['&', 'a', 'm', 'p', ';'] + rest) == seq!['&'] + html_scan(rest),
{
    let name = seq!['a', 'm', 'p'];
    lemma_scan_short_reference(seq!['&', 'a', 'm', 'p', ';'] + rest, name, rest);
    assert(entity_text(name) == seq!['&']);
}

/// `&quot;` read as HTML gives '"'.
proof fn lemma_scan_quot(rest: Seq<char>)
    ensures
        html_scan(seq!['&', 'q', 'u', 'o', 't', ';'] + rest) == seq!['"'] + html_scan(rest),
{
    let name = seq!['q', 'u', 'o', 't'];
    lemma_scan_short_reference(seq!['&', 'q', 'u', 'o', 't', ';'] + rest, name, rest);
    assert(entity_text(name) == seq!['"']);
}

/// `&apos;` read as HTML gives '\''.
proof fn lemma_scan_apos(rest: Seq<char>)
    ensures
        html_scan(seq!['&', 'a', 'p', 'o', 's', ';'] + rest) == seq!['\''] + html_scan(rest),
{
    let name = seq!['a', 'p', 'o', 's'];
    lemma_scan_short_reference(seq!['&', 'a', 'p', 'o', 's', ';'] + rest, name, rest);
    assert(entity_text(name) == seq!['\'']);
}

/// `&nbsp;` read as HTML gives ' '.
proof fn lemma_scan_nbsp(rest: Seq<char>)
    ensures
        html_scan(seq!['&', 'n', 'b', 's', 'p', ';'] + rest) == seq![' '] + html_scan(rest),
{
    let name = seq!['n', 'b', 's', 'p'];
    lemma_scan_short_reference(seq!['&', 'n', 'b', 's', 'p', ';'] + rest, name, rest);
    assert(entity_text(name) == seq![' ']);
}

/// In the reading of HTML each named character reference becomes its own
/// character, and the rest of the text is read on as if it stood alone:
/// `&lt;` gives `<`, `&gt;` gives `>`, `&amp;` gives `&`, `&quot;` gives
/// `"`, `&apos;` gives `'` and `&nbsp;` a space.
pub proof fn lemma_scan_decodes_named_references(rest: Seq<char>)
    ensures
        html_scan(seq!['&', 'l', 't', ';'] + rest) == seq!['<'] + html_scan(rest),
        html_scan(seq!['&', 'g', 't', ';'] + rest) == seq!['>'] + html_scan(rest),
        html_scan(seq!['&', 'a', 'm', 'p', ';'] + rest) == seq!['&'] + html_scan(rest),
        html_scan(seq!['&', 'q', 'u', 'o', 't', ';'] + rest) == seq!['"'] + html_scan(rest),
        html_scan(seq!['&', 'a', 'p', 'o', 's', ';'] + rest) == seq!['\''] + html_scan(rest),
        html_scan(seq!['&', 'n', 'b', 's', 'p', ';'] + rest) == seq![' '] + html_scan(rest),
{
    lemma_scan_lt(rest);
    lemma_scan_gt(rest);
    lemma_scan_amp(rest);
    lemma_scan_quot(rest);
    lemma_scan_apos(rest);
    lemma_scan_nbsp(rest);
}

/// Text with no `<` and no `&` is read as HTML unchanged: it holds no tag,
/// comment or character reference.
pub proof fn lemma_plain_text_scans_unchanged(s: Seq<char>)
    requires
        !s.contains('<'),
        !s.contains('&'),
    ensures
        html_scan(s) == s,
    decreases s.len(),
{
    if s.len() > 0 {
        assert(s[0] != '<' && s[0] != '&') by {
            assert(s.contains(s[0]));
        }
        assert(!starts_with(s, seq!['<', '!', '-', '-'])) by {
            if starts_with(s, seq!['<', '!', '-', '-']) {
                assert(s.subrange(0, 4)[0] == s[0]);
            }
        }
        assert(!starts_with(s, seq!['<', '!'])) by {
            if starts_with(s, seq!['<', '!']) {
                assert(s.subrange(0, 2)[0] == s[0]);
            }
        }
        assert(!starts_with(s, seq!['<', '?'])) by {
            if starts_with(s, seq!['<', '?']) {
                assert(s.subrange(0, 2)[0] == s[0]);
            }
        }
        assert(spec_html_step(s) == (seq![s[0]], 1int));
        let t = s.skip(1);
        assert(!t.contains('<') && !t.contains('&')) by {
            if t.contains('<') || t.contains('&') {
                let k = choose|k: int| 0 <= k < t.len() && (t[k] == '<' || t[k] == '&');
                assert(s[k + 1] == t[k]);
                assert(s.contains(s[k + 1]));
            }
        }
        lemma_plain_text_scans_unchanged(t);
        assert(seq![s[0]] + t =~= s);
    }
}

/// `nbsp` as a plain space.
pub open spec fn nbsp_to_space(c: char) -> char {
    if c == '\u{a0}' {
        ' '
    } else {
        c
    }
}

/// Text with no-break spaces turned into spaces and white space collapsed.
pub open spec fn spec_normalize_text(s: Seq<char>) -> Seq<char> {
    collapse_ws(s.map_values(|c: char| nbsp_to_space(c)))
}

/// The visible text of an HTML document, its white space collapsed.
pub open spec fn spec_html_to_text(html: Seq<char>) -> Seq<char> {
    spec_normalize_text(html_scan(html))
}

/// Whether `s` starts with `p`.
fn has_prefix(s: &[char], p: &[char]) -> (r: bool)
    ensures
        r == starts_with(s@, p@),
{
    matches_at(s, 0, p)
}

/// One step of reading HTML.
fn html_step(s: &[char]) -> (r: (Vec<char>, usize))
    requires
        s@.len() > 0,
    ensures
        (r.0@, r.1 as int) == spec_html_step(s@),
{
    let comment_open = vec!['<', '!', '-', '-'];
    let comment_close = vec!['-', '-', '>'];
    let decl = vec!['<', '!'];
    let pi = vec!['<', '?'];
    let gt = vec!['>'];
    assert(comment_open@ == seq!['<', '!', '-', '-']);
    assert(comment_close@ == seq!['-', '-', '>']);
    assert(decl@ == seq!['<', '!']);
    assert(pi@ == seq!['<', '?']);
    assert(gt@ == seq!['>']);
    if has_prefix(s, comment_open.as_slice()) {
        let n = match find(s, 0, comment_close.as_slice()) {
            Some(e) => {
                assert(comment_close@.len() == 3);
                let len = s.len();
                assert(e + 3 <= len);
                e + 3
            },
            None => s.len(),
        };
        return (vec![' '], n);
    }
    if has_prefix(s, decl.as_slice()) || has_prefix(s, pi.as_slice()) {
        let n = match find(s, 0, gt.as_slice()) {
            Some(e) => {
                assert(gt@.len() == 1);
                let len = s.len();
                assert(e + 1 <= len);
                e + 1
            },
            None => s.len(),
        };
        return (vec![' '], n);
    }
    if let Some(tag) = parse_html_tag(s) {
        if !tag.is_closing && !tag.is_self_closing && is_html_raw_text_tag(tag.name.as_slice()) {
            let n = match find_html_closing_tag_end(s, tag.name.as_slice()) {
                Some(e) => e,
                None => s.len(),
            };
            return (vec![' '], n);
        } else if !tag.is_closing && inserts_text_break(tag.name.as_slice()) {
            return (vec![' ', ' '], tag.end_index);
        } else {
            return (vec![' '], tag.end_index);
        }
    }
    if let Some(decoded) = decode_html_entity(s) {
        return decoded;
    }
    (vec![s[0]], 1)
}

/// The visible text of `s`, before white space is collapsed.
fn html_scan_chars(s: &[char]) -> (out: Vec<char>)
    ensures
        out@ == html_scan(s@),
{
    let mut out: Vec<char> = Vec::new();
    let mut index: usize = 0;
    assert(s@.skip(0) =~= s@);
    while index < s.len()
        invariant
            index <= s@.len(),
            out@ + html_scan(s@.skip(index as int)) == html_scan(s@),
        decreases s@.len() - index,
    {
        let rest = slice_subrange(s, index, s.len());
        assert(rest@ =~= s@.skip(index as int));
        proof {
            lemma_html_step_bounds(rest@);
        }
        let (emit, n) = html_step(rest);
        let ghost before = out@;
        append_chars(&mut out, emit.as_slice());
        assert(rest@.skip(n as int) =~= s@.skip(index + n));
        assert(out@ + html_scan(s@.skip(index + n)) =~= before + (emit@ + html_scan(
            rest@.skip(n as int),
        )));
        index = index + n;
    }
    assert(s@.skip(index as int).len() == 0);
    assert(out@ + html_scan(s@.skip(index as int)) =~= out@);
    out
}

/// Text with no-break spaces turned into spaces and white space collapsed.
pub fn normalize_chars(s: &[char]) -> (out: Vec<char>)
    ensures
        out@ == spec_normalize_text(s@),
{
    let mut mapped: Vec<char> = Vec::new();
    for i in 0..s.len()
        invariant
            mapped@ == s@.take(i as int).map_values(|c: char| nbsp_to_space(c)),
    {
        let c = s[i];
        mapped.push(if c == '\u{a0}' { ' ' } else { c });
        assert(s@.take(i + 1).map_values(|c: char| nbsp_to_space(c)) =~= s@.take(i as int).map_values(|c: char| nbsp_to_space(c)).push(nbsp_to_space(c)));
    }
    assert(s@.take(s@.len() as int) =~= s@);
    collapse_whitespace(mapped.as_slice())
}

/// Text with no-break spaces turned into spaces and white space collapsed.
pub fn normalize_text(value: &str) -> (out: String)
    ensures
        out@ == spec_normalize_text(value@),
{
    let v = chars_of(value);
    let n = normalize_chars(v.as_slice());
    string_from_chars(n.as_slice())
}

/// The visible text of an HTML document, its white space collapsed.
pub fn html_to_text(html: &str) -> (out: String)
    ensures
        out@ == spec_html_to_text(html@),
{
    let v = chars_of(html);
    let scanned = html_scan_chars(v.as_slice());
    let n = normalize_chars(scanned.as_slice());
    string_from_chars(n.as_slice())
}


// ---------------------------------------------------------------------------
// Previews
// ---------------------------------------------------------------------------

/// Names what `char::is_alphanumeric` answers: whether a character is Unicode
/// Alphabetic or Numeric.
pub uninterp spec fn unicode_alphanumeric(c: char) -> bool;

/// `char::is_alphanumeric`. Its documentation says it tests the Unicode
/// Alphabetic and Numeric properties; for ASCII these are the letters and
/// digits, which is all that is stated here beyond naming the result.
#[verifier::external_body]
fn char_is_alphanumeric(c: char) -> (r: bool)
    ensures
        r == unicode_alphanumeric(c),
        (c as u32) < 128 ==> r == is_ascii_alnum(c),
{
    c.is_alphanumeric()
}

/// Whether a character is alphanumeric as `char::is_alphanumeric` answers:
/// for ASCII, a letter or a digit; beyond, what the name says.
pub open spec fn alnum(c: char) -> bool {
    if (c as u32) < 128 {
        is_ascii_alnum(c)
    } else {
        unicode_alphanumeric(c)
    }
}

/// `s` without its leading characters that are not alphanumeric.
pub open spec fn strip_start_non_alnum(s: Seq<char>) -> Seq<char>
    decreases s.len(),
{
    if s.len() > 0 && !alnum(s[0]) {
        strip_start_non_alnum(s.drop_first())
    } else {
        s
    }
}

/// `s` without its trailing characters that are not alphanumeric.
pub open spec fn strip_end_non_alnum(s: Seq<char>) -> Seq<char>
    decreases s.len(),
{
    if s.len() > 0 && !alnum(s.last()) {
        strip_end_non_alnum(s.drop_last())
    } else {
        s
    }
}

/// Text that is nothing but the word `undefined` (any case) between
/// punctuation: what broken templates leave in a message.
pub open spec fn spec_is_noise_preview(s: Seq<char>) -> bool {
    eq_ignore_case(strip_end_non_alnum(strip_start_non_alnum(s)), "undefined"@)
}

/// Leading characters that are not alphanumeric are stripped up to the
/// first that is.
proof fn lemma_strip_start_over(p: Seq<char>, x: Seq<char>)
    requires
        forall|i: int| 0 <= i < p.len() ==> !alnum(#[trigger] p[i]),
        x.len() > 0,
        alnum(x[0]),
    ensures
        strip_start_non_alnum(p + x) == x,
    decreases p.len(),
{
    if p.len() == 0 {
        assert(p + x =~= x);
    } else {
        assert((p + x).drop_first() =~= p.drop_first() + x);
        assert((p + x)[0] == p[0]);
        lemma_strip_start_over(p.drop_first(), x);
    }
}

/// Trailing characters that are not alphanumeric are stripped back to the
/// last that is.
proof fn lemma_strip_end_over(x: Seq<char>, q: Seq<char>)
    requires
        forall|i: int| 0 <= i < q.len() ==> !alnum(#[trigger] q[i]),
        x.len() > 0,
        alnum(x.last()),
    ensures
        strip_end_non_alnum(x + q) == x,
    decreases q.len(),
{
    if q.len() == 0 {
        assert(x + q =~= x);
    } else {
        assert((x + q).drop_last() =~= x + q.drop_last());
        assert((x + q).last() == q.last());
        lemma_strip_end_over(x, q.drop_last());
    }
}

/// The word `undefined`, in any case, with nothing around it but
/// characters that are not letters or digits, is noise.
pub proof fn lemma_undefined_is_noise(before: Seq<char>, word: Seq<char>, after: Seq<char>)
    requires
        forall|i: int| 0 <= i < before.len() ==> !alnum(#[trigger] before[i]),
        forall|i: int| 0 <= i < after.len() ==> !alnum(#[trigger] after[i]),
        eq_ignore_case(word, "undefined"@),
    ensures
        spec_is_noise_preview(before + word + after),
{
    reveal_strlit("undefined");
    let lw = lower_seq(word);
    assert(lw =~= lower_seq("undefined"@));
    assert(word.len() == 9);
    assert(lw[0] == crate::text::lower(word[0]));
    assert(lw[8] == crate::text::lower(word[8]));
    assert(alnum(word[0]));
    assert(alnum(word.last()));
    lemma_strip_end_over(word, after);
    assert(before + word + after =~= before + (word + after));
    lemma_strip_start_over(before, word + after);
}

/// Whether `value` is nothing but the word `undefined` between punctuation.
pub fn is_noise_preview_text(value: &[char]) -> (r: bool)
    ensures
        r == spec_is_noise_preview(value@),
{
    let mut i: usize = 0;
    assert(value@.skip(0) =~= value@);
    while i < value.len() && !char_is_alphanumeric(value[i])
        invariant
            i <= value@.len(),
            strip_start_non_alnum(value@) == strip_start_non_alnum(value@.skip(i as int)),
        decreases value@.len() - i,
    {
        assert(value@.skip(i as int).drop_first() =~= value@.skip(i + 1));
        i = i + 1;
    }
    let rest = slice_subrange(value, i, value.len());
    assert(rest@ =~= value@.skip(i as int));
    assert(strip_start_non_alnum(value@) == rest@) by {
        if rest@.len() > 0 {
            assert(rest@[0] == value@[i as int]);
        }
    }
    let mut j: usize = rest.len();
    assert(rest@.subrange(0, j as int) =~= rest@);
    while j > 0 && !char_is_alphanumeric(rest[j - 1])
        invariant
            j <= rest@.len(),
            strip_end_non_alnum(rest@) == strip_end_non_alnum(rest@.subrange(0, j as int)),
        decreases j,
    {
        assert(rest@.subrange(0, j as int).drop_last() =~= rest@.subrange(0, j - 1));
        j = j - 1;
    }
    let core = slice_subrange(rest, 0, j);
    let undefined = literal("undefined");
    chars_eq_ignore_case(core, undefined.as_slice())
}

/// The preview of a body: its words joined by single spaces, at most 240
/// characters, and nothing at all for a body that is only `undefined`.
pub open spec fn spec_build_preview(body: Seq<char>) -> Seq<char> {
    let compact = collapse_ws(body);
    if spec_is_noise_preview(compact) {
        Seq::empty()
    } else if compact.len() <= 240 {
        compact
    } else {
        compact.take(240)
    }
}

/// The preview of a message body.
pub fn build_preview(body: &str) -> (out: String)
    ensures
        out@ == spec_build_preview(body@),
        out@.len() <= 240,
{
    let v = chars_of(body);
    let compact = collapse_whitespace(v.as_slice());
    if is_noise_preview_text(compact.as_slice()) {
        return String::new();
    }
    let n = if compact.len() <= 240 { compact.len() } else { 240 };
    let taken = slice_range(compact.as_slice(), 0, n);
    assert(compact@.len() <= 240 ==> taken@ =~= compact@);
    string_from_chars(taken.as_slice())
}

// ---------------------------------------------------------------------------
// Content identifiers
// ---------------------------------------------------------------------------

/// `s` without its leading `<` characters.
pub open spec fn strip_start_lt(s: Seq<char>) -> Seq<char>
    decreases s.len(),
{
    if s.len() > 0 && s[0] == '<' {
        strip_start_lt(s.drop_first())
    } else {
        s
    }
}

/// `s` without its trailing `>` characters.
pub open spec fn strip_end_gt(s: Seq<char>) -> Seq<char>
    decreases s.len(),
{
    if s.len() > 0 && s.last() == '>' {
        strip_end_gt(s.drop_last())
    } else {
        s
    }
}

/// A content identifier without white space and angle brackets around it;
/// nothing if that leaves it empty.
pub open spec fn spec_normalize_content_id(value: Seq<char>) -> Option<Seq<char>> {
    let core = strip_end_gt(strip_start_lt(trim(value)));
    if core.len() == 0 {
        None
    } else {
        Some(core)
    }
}

/// A content identifier written bare or in angle brackets is the same
/// identifier: for an identifier that neither starts with `<` nor ends with
/// `>` and has no white space at its ends, `<id>` and `id` both give `id`.
pub proof fn lemma_content_id_brackets(id: Seq<char>)
    requires
        id.len() > 0,
        id[0] != '<',
        id.last() != '>',
        !is_ws(id[0]),
        !is_ws(id.last()),
    ensures
        spec_normalize_content_id(seq!['<'] + id + seq!['>']) == Some(id),
        spec_normalize_content_id(id) == Some(id),
{
    let b = seq!['<'] + id + seq!['>'];
    assert(b[0] == '<');
    assert(b.last() == '>');
    assert(trim_start(b) == b);
    assert(trim_end(b) == b);
    assert(trim_start(id) == id);
    assert(trim_end(id) == id);
    assert(b.drop_first() =~= id + seq!['>']);
    assert((id + seq!['>'])[0] == id[0]);
    assert(strip_start_lt(id + seq!['>']) == id + seq!['>']);
    assert((id + seq!['>']).drop_last() =~= id);
    assert(strip_end_gt(id) == id);
    assert(strip_start_lt(id) == id);
}

/// A content identifier without white space and angle brackets around it.
pub fn normalize_content_id_chars(value: &[char]) -> (r: Option<Vec<char>>)
    ensures
        match r {
            Some(v) => spec_normalize_content_id(value@) == Some(v@),
            None => spec_normalize_content_id(value@) is None,
        },
{
    let t = trim_chars(value);
    let mut i: usize = 0;
    assert(t@.skip(0) =~= t@);
    while i < t.len() && t[i] == '<'
        invariant
            i <= t@.len(),
            strip_start_lt(t@) == strip_start_lt(t@.skip(i as int)),
        decreases t@.len() - i,
    {
        assert(t@.skip(i as int).drop_first() =~= t@.skip(i + 1));
        i = i + 1;
    }
    let rest = slice_subrange(t.as_slice(), i, t.len());
    assert(rest@ =~= t@.skip(i as int));
    assert(strip_start_lt(t@) == rest@) by {
        if rest@.len() > 0 {
            assert(rest@[0] == t@[i as int]);
        }
    }
    let mut j: usize = rest.len();
    assert(rest@.subrange(0, j as int) =~= rest@);
    while j > 0 && rest[j - 1] == '>'
        invariant
            j <= rest@.len(),
            strip_end_gt(rest@) == strip_end_gt(rest@.subrange(0, j as int)),
        decreases j,
    {
        assert(rest@.subrange(0, j as int).drop_last() =~= rest@.subrange(0, j - 1));
        j = j - 1;
    }
    if j == 0 {
        return None;
    }
    Some(slice_range(rest, 0, j))
}

/// A content identifier without white space and angle brackets around it.
pub fn normalize_content_id(value: &str) -> (r: Option<String>)
    ensures
        match r {
            Some(v) => spec_normalize_content_id(value@) == Some(v@),
            None => spec_normalize_content_id(value@) is None,
        },
{
    let v = chars_of(value);
    match normalize_content_id_chars(v.as_slice()) {
        Some(c) => Some(string_from_chars(c.as_slice())),
        None => None,
    }
}

/// The first index at which `needle` occurs in `haystack` up to ASCII case,
/// counted in characters (not bytes) of `haystack`; `needle` is not empty.
pub fn find_ascii_case_insensitive(haystack: &[char], needle: &[char]) -> (r: Option<usize>)
    requires
        needle@.len() > 0,
    ensures
        opt_int(r) == first_occurrence_ignore_case(haystack@, 0, needle@),
{
    find_ignore_case(haystack, 0, needle)
}

/// Characters that end a `cid:` reference in HTML.
pub open spec fn ends_cid(c: char) -> bool {
    is_ws(c) || c == '"' || c == '\'' || c == '<' || c == '>' || c == ')'
}

/// The length of the reference that starts `s`.
pub open spec fn cid_len(s: Seq<char>) -> nat
    decreases s.len(),
{
    if s.len() > 0 && !ends_cid(s[0]) {
        1 + cid_len(s.drop_first())
    } else {
        0
    }
}

/// The content identifiers that `cid:` references in `html` name, in lower case.
pub open spec fn spec_cid_references(html: Seq<char>) -> Set<Seq<char>>
    decreases html.len(),
{
    match first_occurrence_ignore_case(html, 0, seq!['c', 'i', 'd', ':']) {
        None => Set::empty(),
        Some(i) => {
            let after = html.skip(i + 4);
            let raw = after.take(cid_len(after) as int);
            let rest = after.skip(cid_len(after) as int);
            let found = match spec_normalize_content_id(raw) {
                Some(id) => set![lower_seq(id)],
                None => Set::empty(),
            };
            if 0 <= i && i + 4 <= html.len() && cid_len(after) <= after.len() {
                found + spec_cid_references(rest)
            } else {
                found
            }
        },
    }
}

/// The reference length is within what is there.
proof fn lemma_cid_len_bound(s: Seq<char>)
    ensures
        cid_len(s) <= s.len(),
    decreases s.len(),
{
    if s.len() > 0 && !ends_cid(s[0]) {
        lemma_cid_len_bound(s.drop_first());
    }
}

/// The length of the reference at the start of `s`.
fn cid_length(s: &[char]) -> (n: usize)
    ensures
        n == cid_len(s@),
        n <= s@.len(),
{
    let mut n: usize = 0;
    assert(s@.skip(0) =~= s@);
    while n < s.len() && !(is_whitespace_char(s[n]) || s[n] == '"' || s[n] == '\'' || s[n] == '<'
        || s[n] == '>' || s[n] == ')')
        invariant
            n <= s@.len(),
            cid_len(s@) == n + cid_len(s@.skip(n as int)),
        decreases s@.len() - n,
    {
        assert(s@.skip(n as int).drop_first() =~= s@.skip(n + 1));
        n = n + 1;
    }
    assert(cid_len(s@.skip(n as int)) == 0) by {
        if n < s@.len() {
            assert(s@.skip(n as int)[0] == s@[n as int]);
        }
    }
    n
}

/// The content identifiers that `cid:` references in `html` name, each once, in lower case.
pub fn extract_cid_references(html: &str) -> (out: Vec<String>)
    ensures
        string_set(out@) == spec_cid_references(html@),
{
    let chars = chars_of(html);
    let needle = vec!['c', 'i', 'd', ':'];
    assert(needle@ == seq!['c', 'i', 'd', ':']);
    let mut out: Vec<String> = Vec::new();
    let mut pos: usize = 0;
    assert(chars@.skip(0) =~= chars@);
    assert(string_set(out@) =~= Set::<Seq<char>>::empty());
    loop
        invariant
            pos <= chars@.len(),
            needle@ == seq!['c', 'i', 'd', ':'],
            string_set(out@) + spec_cid_references(chars@.skip(pos as int)) == spec_cid_references(
                html@,
            ),
            chars@ == html@,
        decreases chars@.len() - pos,
    {
        let remaining = slice_subrange(chars.as_slice(), pos, chars.len());
        assert(remaining@ =~= chars@.skip(pos as int));
        let i = match find_ignore_case(remaining, 0, needle.as_slice()) {
            None => {
                assert(string_set(out@) + spec_cid_references(remaining@) =~= string_set(out@));
                return out;
            },
            Some(i) => i,
        };
        let after = slice_subrange(remaining, i + 4, remaining.len());
        assert(after@ =~= remaining@.skip(i + 4));
        let n = cid_length(after);
        let raw = slice_subrange(after, 0, n);
        assert(raw@ =~= after@.take(n as int));
        let ghost old_set = string_set(out@);
        match normalize_content_id_chars(raw) {
            Some(id) => {
                let lowered = lower_chars(id.as_slice());
                let s = string_from_chars(lowered.as_slice());
                if !contains_string(&out, &s) {
                    let ghost before = out@;
                    out.push(s);
                    assert forall|x: Seq<char>| string_set(out@).contains(x) <==> old_set.insert(lowered@).contains(x) by {
                        if string_set(out@).contains(x) {
                            let j = choose|j: int| 0 <= j < out@.len() && out@[j]@ == x;
                            if j < before.len() {
                                assert(before[j]@ == x);
                            }
                        }
                        if old_set.contains(x) {
                            let j = choose|j: int| 0 <= j < before.len() && before[j]@ == x;
                            assert(out@[j]@ == x);
                        }
                        if x == lowered@ {
                            assert(out@[before.len() as int]@ == x);
                        }
                    }
                    assert(string_set(out@) =~= old_set.insert(lowered@));
                } else {
                    assert(string_set(out@) =~= old_set.insert(lowered@));
                }
                assert(set![lowered@] =~= Set::<Seq<char>>::empty().insert(lowered@));
            },
            None => {},
        }
        assert(after@.skip(n as int) =~= chars@.skip(pos + i + 4 + n));
        pos = pos + i + 4 + n;
    }
}

} // verus!
