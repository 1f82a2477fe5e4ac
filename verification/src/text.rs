use vstd::prelude::*;

verus! {

// ---------------------------------------------------------------------------
// Character classes
// ---------------------------------------------------------------------------

/// The characters Unicode calls White_Space (what `char::is_whitespace` tests).
pub open spec fn is_ws(c: char) -> bool {
    let u = c as u32;
    ||| 9 <= u <= 13
    ||| u == 32
    ||| u == 0x85
    ||| u == 0xA0
    ||| u == 0x1680
    ||| 0x2000 <= u <= 0x200A
    ||| u == 0x2028
    ||| u == 0x2029
    ||| u == 0x202F
    ||| u == 0x205F
    ||| u == 0x3000
}

/// Whether `c` is white space.
pub fn is_whitespace_char(c: char) -> (r: bool)
    ensures
        r == is_ws(c),
{
    let u = c as u32;
    (9 <= u && u <= 13) || u == 32 || u == 0x85 || u == 0xA0 || u == 0x1680 || (0x2000 <= u && u
        <= 0x200A) || u == 0x2028 || u == 0x2029 || u == 0x202F || u == 0x205F || u == 0x3000
}

/// ASCII letters and digits.
pub open spec fn is_ascii_alnum(c: char) -> bool {
    ('a' <= c && c <= 'z') || ('A' <= c && c <= 'Z') || ('0' <= c && c <= '9')
}

/// ASCII letters.
pub open spec fn is_ascii_alpha(c: char) -> bool {
    ('a' <= c && c <= 'z') || ('A' <= c && c <= 'Z')
}

/// Whether `c` is an ASCII letter or digit.
pub fn is_ascii_alnum_char(c: char) -> (r: bool)
    ensures
        r == is_ascii_alnum(c),
{
    ('a' <= c && c <= 'z') || ('A' <= c && c <= 'Z') || ('0' <= c && c <= '9')
}

/// The ASCII lower case of `c`; other characters are left as they are.
pub open spec fn lower(c: char) -> char {
    if 'A' <= c && c <= 'Z' {
        ((c as u32) + 32) as char
    } else {
        c
    }
}

/// The ASCII lower case of `c`.
pub fn lower_char(c: char) -> (r: char)
    ensures
        r == lower(c),
{
    if 'A' <= c && c <= 'Z' {
        (((c as u32) + 32) as u8) as char
    } else {
        c
    }
}

/// The ASCII lower case of every character of `s`.
pub open spec fn lower_seq(s: Seq<char>) -> Seq<char> {
    s.map_values(|c: char| lower(c))
}

/// Two character sequences that are equal up to ASCII case.
pub open spec fn eq_ignore_case(a: Seq<char>, b: Seq<char>) -> bool {
    lower_seq(a) == lower_seq(b)
}

// ---------------------------------------------------------------------------
// Conversions between text and character vectors
// ---------------------------------------------------------------------------

/// The characters of `s`, in order.
pub fn chars_of(s: &str) -> (out: Vec<char>)
    ensures
        out@ == s@,
{
    let mut out: Vec<char> = Vec::new();
    for c in it: s.chars()
        invariant
            out@ == it.seq().take(it.index() as int),
            it.seq() == s@,
    {
        out.push(c);
    }
    out
}

/// A string made of the characters of `chars`, through `FromIterator<char>`.
#[verifier::external_body]
pub(crate) fn string_from_chars(chars: &[char]) -> (s: String)
    ensures
        s@ == chars@,
{
    chars.iter().collect()
}

/// A copy of a string slice as an owned string.
pub fn owned(s: &str) -> (r: String)
    ensures
        r@ == s@,
{
    s.to_owned()
}

/// A copy of `s`.
pub fn copy_string(s: &String) -> (r: String)
    ensures
        r@ == s@,
{
    s.clone()
}

/// A copy of an optional string.
pub fn copy_opt_string(s: &Option<String>) -> (r: Option<String>)
    ensures
        r is Some == s is Some,
        r is Some ==> r->0@ == s->0@,
{
    match s {
        Some(v) => Some(v.clone()),
        None => None,
    }
}

/// The view of an optional string.
pub open spec fn opt_view(o: Option<String>) -> Option<Seq<char>> {
    match o {
        Some(s) => Some(s@),
        None => None,
    }
}

/// The views of a sequence of strings.
pub open spec fn views(v: Seq<String>) -> Seq<Seq<char>> {
    v.map_values(|s: String| s@)
}

/// A copy of a vector of strings.
pub fn copy_strings(v: &Vec<String>) -> (r: Vec<String>)
    ensures
        views(r@) == views(v@),
        r@.len() == v@.len(),
{
    let mut r: Vec<String> = Vec::new();
    for i in 0..v.len()
        invariant
            r@.len() == i,
            forall|j: int| 0 <= j < i ==> #[trigger] r@[j]@ == v@[j]@,
    {
        r.push(v[i].clone());
    }
    assert(views(r@) =~= views(v@));
    r
}

/// `a` followed by `b`.
pub fn concat2(a: &str, b: &str) -> (r: String)
    ensures
        r@ == a@ + b@,
{
    let mut s = a.to_owned();
    s.append(b);
    s
}

/// `a`, `b` and `c` in a row.
pub fn concat3(a: &str, b: &str, c: &str) -> (r: String)
    ensures
        r@ == a@ + b@ + c@,
{
    let mut s = a.to_owned();
    s.append(b);
    s.append(c);
    s
}

/// The character sequence of a literal, revealed.
pub fn literal(s: &str) -> (out: Vec<char>)
    ensures
        out@ == s@,
{
    chars_of(s)
}

// ---------------------------------------------------------------------------
// Trimming
// ---------------------------------------------------------------------------

/// `s` without its leading white space.
pub open spec fn trim_start(s: Seq<char>) -> Seq<char>
    decreases s.len(),
{
    if s.len() > 0 && is_ws(s[0]) {
        trim_start(s.drop_first())
    } else {
        s
    }
}

/// `s` without its trailing white space.
pub open spec fn trim_end(s: Seq<char>) -> Seq<char>
    decreases s.len(),
{
    if s.len() > 0 && is_ws(s.last()) {
        trim_end(s.drop_last())
    } else {
        s
    }
}

/// `s` without leading and trailing white space (`str::trim`).
pub open spec fn trim(s: Seq<char>) -> Seq<char> {
    trim_end(trim_start(s))
}

/// The white-space-only sequences are exactly those that trim to nothing.
pub proof fn lemma_trim_empty(s: Seq<char>)
    ensures
        trim(s).len() == 0 <==> (forall|i: int| 0 <= i < s.len() ==> is_ws(#[trigger] s[i])),
    decreases s.len(),
{
    lemma_trim_start_empty(s);
    lemma_trim_end_empty(trim_start(s));
    if trim_start(s).len() > 0 {
        lemma_trim_start_first(s);
    }
}

proof fn lemma_trim_start_empty(s: Seq<char>)
    ensures
        trim_start(s).len() == 0 <==> (forall|i: int| 0 <= i < s.len() ==> is_ws(#[trigger] s[i])),
    decreases s.len(),
{
    if s.len() > 0 && is_ws(s[0]) {
        lemma_trim_start_empty(s.drop_first());
        if trim_start(s.drop_first()).len() == 0 {
            assert forall|i: int| 0 <= i < s.len() implies is_ws(#[trigger] s[i]) by {
                if i > 0 {
                    assert(s[i] == s.drop_first()[i - 1]);
                }
            }
        } else {
            let k = choose|k: int| 0 <= k < s.drop_first().len() && !is_ws(#[trigger] s.drop_first()[k]);
            assert(!is_ws(s[k + 1]));
        }
    }
}

proof fn lemma_trim_end_empty(s: Seq<char>)
    ensures
        trim_end(s).len() == 0 <==> (forall|i: int| 0 <= i < s.len() ==> is_ws(#[trigger] s[i])),
    decreases s.len(),
{
    if s.len() > 0 && is_ws(s.last()) {
        lemma_trim_end_empty(s.drop_last());
        if trim_end(s.drop_last()).len() == 0 {
            assert forall|i: int| 0 <= i < s.len() implies is_ws(#[trigger] s[i]) by {
                if i < s.len() - 1 {
                    assert(s[i] == s.drop_last()[i]);
                }
            }
        } else {
            let k = choose|k: int| 0 <= k < s.drop_last().len() && !is_ws(#[trigger] s.drop_last()[k]);
            assert(!is_ws(s[k]));
        }
    }
}

proof fn lemma_trim_start_first(s: Seq<char>)
    requires
        trim_start(s).len() > 0,
    ensures
        !is_ws(trim_start(s)[0]),
    decreases s.len(),
{
    if s.len() > 0 && is_ws(s[0]) {
        lemma_trim_start_first(s.drop_first());
    }
}

/// Index of the first character of `s` that is not white space (or its length).
pub fn trim_start_index(s: &[char]) -> (i: usize)
    ensures
        i <= s@.len(),
        trim_start(s@) == s@.subrange(i as int, s@.len() as int),
{
    let mut i: usize = 0;
    assert(s@.subrange(0, s@.len() as int) =~= s@);
    while i < s.len() && is_whitespace_char(s[i])
        invariant
            i <= s@.len(),
            trim_start(s@) == trim_start(s@.subrange(i as int, s@.len() as int)),
        decreases s@.len() - i,
    {
        assert(s@.subrange(i as int, s@.len() as int).drop_first() =~= s@.subrange(
            i + 1,
            s@.len() as int,
        ));
        i = i + 1;
    }
    assert(s@.subrange(i as int, s@.len() as int).len() == 0 || !is_ws(
        s@.subrange(i as int, s@.len() as int)[0],
    ));
    i
}

/// Index just past the last character of `s` that is not white space (or zero).
pub fn trim_end_index(s: &[char], start: usize) -> (j: usize)
    requires
        start <= s@.len(),
    ensures
        start <= j <= s@.len(),
        trim_end(s@.subrange(start as int, s@.len() as int)) == s@.subrange(start as int, j as int),
{
    let mut j: usize = s.len();
    assert(s@.subrange(start as int, s@.len() as int) =~= s@.subrange(start as int, j as int));
    while j > start && is_whitespace_char(s[j - 1])
        invariant
            start <= j <= s@.len(),
            trim_end(s@.subrange(start as int, s@.len() as int)) == trim_end(
                s@.subrange(start as int, j as int),
            ),
        decreases j,
    {
        assert(s@.subrange(start as int, j as int).drop_last() =~= s@.subrange(
            start as int,
            j - 1,
        ));
        j = j - 1;
    }
    j
}

/// `s` without leading and trailing white space.
pub fn trim_chars(s: &[char]) -> (out: Vec<char>)
    ensures
        out@ == trim(s@),
{
    let i = trim_start_index(s);
    let j = trim_end_index(s, i);
    slice_range(s, i, j)
}

/// The characters `s[from..to]`.
pub fn slice_range(s: &[char], from: usize, to: usize) -> (out: Vec<char>)
    requires
        from <= to <= s@.len(),
    ensures
        out@ == s@.subrange(from as int, to as int),
{
    let mut out: Vec<char> = Vec::new();
    let mut k = from;
    while k < to
        invariant
            from <= k <= to,
            to <= s@.len(),
            out@ == s@.subrange(from as int, k as int),
        decreases to - k,
    {
        out.push(s[k]);
        assert(s@.subrange(from as int, k + 1) =~= s@.subrange(from as int, k as int).push(s@[k as int]));
        k = k + 1;
    }
    out
}

/// `str::trim` on text.
pub fn trim_str(s: &str) -> (out: String)
    ensures
        out@ == trim(s@),
{
    let v = chars_of(s);
    let t = trim_chars(v.as_slice());
    string_from_chars(t.as_slice())
}

/// Whether `s` is empty after trimming.
pub fn is_blank(s: &str) -> (r: bool)
    ensures
        r == (trim(s@).len() == 0),
{
    let v = chars_of(s);
    let t = trim_chars(v.as_slice());
    t.len() == 0
}

// ---------------------------------------------------------------------------
// Collapsing white space
// ---------------------------------------------------------------------------

/// The words of `s` joined by single spaces
/// (`s.split_whitespace().collect::<Vec<_>>().join(" ")`): every character
/// that is not white space is kept, and two kept characters that white space
/// separated in `s` are separated by exactly one space.
pub open spec fn collapse_ws(s: Seq<char>) -> Seq<char>
    decreases s.len(),
{
    if s.len() == 0 {
        Seq::empty()
    } else {
        let p = s.drop_last();
        let c = s.last();
        if is_ws(c) {
            collapse_ws(p)
        } else if p.len() > 0 && is_ws(p.last()) && collapse_ws(p).len() > 0 {
            collapse_ws(p).push(' ').push(c)
        } else {
            collapse_ws(p).push(c)
        }
    }
}

/// Text with no white space is left as it is by collapsing white space.
pub proof fn lemma_collapse_no_ws(s: Seq<char>)
    requires
        forall|i: int| 0 <= i < s.len() ==> !is_ws(#[trigger] s[i]),
    ensures
        collapse_ws(s) == s,
    decreases s.len(),
{
    if s.len() > 0 {
        let p = s.drop_last();
        assert forall|i: int| 0 <= i < p.len() implies !is_ws(#[trigger] p[i]) by {
            assert(p[i] == s[i]);
        }
        lemma_collapse_no_ws(p);
        assert(!is_ws(s[s.len() - 1]));
        if p.len() > 0 {
            assert(!is_ws(s[p.len() - 1]));
        }
        assert(p.push(s.last()) =~= s);
    }
}

/// The words of `s` joined by single spaces.
pub fn collapse_whitespace(s: &[char]) -> (out: Vec<char>)
    ensures
        out@ == collapse_ws(s@),
{
    let mut out: Vec<char> = Vec::new();
    let mut pending = false;
    let mut i: usize = 0;
    while i < s.len()
        invariant
            i <= s@.len(),
            out@ == collapse_ws(s@.take(i as int)),
            pending == (i > 0 && is_ws(s@[i - 1])),
        decreases s@.len() - i,
    {
        let c = s[i];
        assert(s@.take(i + 1).drop_last() =~= s@.take(i as int));
        assert(s@.take(i + 1).last() == c);
        if is_whitespace_char(c) {
            pending = true;
        } else {
            if pending && out.len() > 0 {
                out.push(' ');
            }
            out.push(c);
            pending = false;
        }
        i = i + 1;
    }
    assert(s@.take(s@.len() as int) =~= s@);
    out
}

/// No character of `collapse_ws(s)` but the separating spaces is white space,
/// and it neither starts nor ends with white space.
pub proof fn lemma_collapse_shape(s: Seq<char>)
    ensures
        collapse_ws(s).len() > 0 ==> !is_ws(collapse_ws(s)[0]) && !is_ws(collapse_ws(s).last()),
        forall|i: int|
            0 <= i < collapse_ws(s).len() && is_ws(#[trigger] collapse_ws(s)[i]) ==> collapse_ws(s)[i]
                == ' ' && 0 < i < collapse_ws(s).len() - 1 && !is_ws(collapse_ws(s)[i - 1])
                && !is_ws(collapse_ws(s)[i + 1]),
        collapse_ws(s).len() <= s.len(),
        s.len() > 0 && is_ws(s.last()) ==> collapse_ws(s).len() + 1 <= s.len(),
    decreases s.len(),
{
    if s.len() > 0 {
        lemma_collapse_shape(s.drop_last());
        let p = s.drop_last();
        let q = collapse_ws(p);
        let r = collapse_ws(s);
        if !is_ws(s.last()) {
            if p.len() > 0 && is_ws(p.last()) && q.len() > 0 {
                assert(r == q.push(' ').push(s.last()));
                assert forall|i: int| 0 <= i < r.len() && is_ws(#[trigger] r[i]) implies r[i] == ' '
                    && 0 < i < r.len() - 1 && !is_ws(r[i - 1]) && !is_ws(r[i + 1]) by {
                    if i < q.len() {
                        assert(r[i] == q[i]);
                        if i + 1 < q.len() {
                            assert(r[i + 1] == q[i + 1]);
                        }
                        if i > 0 {
                            assert(r[i - 1] == q[i - 1]);
                        }
                    }
                }
                assert(q.len() + 2 <= s.len());
            } else {
                assert(r == q.push(s.last()));
                assert forall|i: int| 0 <= i < r.len() && is_ws(#[trigger] r[i]) implies r[i] == ' '
                    && 0 < i < r.len() - 1 && !is_ws(r[i - 1]) && !is_ws(r[i + 1]) by {
                    assert(r[i] == q[i]);
                    if i + 1 < q.len() {
                        assert(r[i + 1] == q[i + 1]);
                    }
                    if i > 0 {
                        assert(r[i - 1] == q[i - 1]);
                    }
                }
            }
        }
    }
}

/// Collapsing white space twice changes nothing more.
pub proof fn lemma_collapse_idempotent(s: Seq<char>)
    ensures
        collapse_ws(collapse_ws(s)) == collapse_ws(s),
{
    lemma_collapse_shape(s);
    lemma_collapse_fixed(collapse_ws(s));
}

/// A sequence in collapsed shape is its own collapse.
proof fn lemma_collapse_fixed(t: Seq<char>)
    requires
        t.len() > 0 ==> !is_ws(t[0]) && !is_ws(t.last()),
        forall|i: int|
            0 <= i < t.len() && is_ws(#[trigger] t[i]) ==> t[i] == ' ' && 0 < i < t.len() - 1
                && !is_ws(t[i - 1]) && !is_ws(t[i + 1]),
    ensures
        collapse_ws(t) == t,
    decreases t.len(),
{
    if t.len() > 0 {
        let p = t.drop_last();
        if p.len() > 0 && is_ws(p.last()) {
            // p = pp + [' '], and pp is in collapsed shape
            let pp = p.drop_last();
            assert(p.len() >= 2) by {
                assert(is_ws(t[p.len() - 1]));
            }
            assert forall|i: int| 0 <= i < pp.len() && is_ws(#[trigger] pp[i]) implies pp[i] == ' '
                && 0 < i < pp.len() - 1 && !is_ws(pp[i - 1]) && !is_ws(pp[i + 1]) by {
                assert(pp[i] == t[i]);
                assert(is_ws(t[i]));
                assert(pp[i - 1] == t[i - 1]);
                if i + 1 == pp.len() {
                    assert(t[i + 1] == p.last());
                } else {
                    assert(pp[i + 1] == t[i + 1]);
                }
            }
            assert(!is_ws(t[pp.len() - 1]));
            lemma_collapse_fixed(pp);
            assert(collapse_ws(p) == collapse_ws(pp));
            assert(t =~= pp.push(' ').push(t.last()));
        } else {
            assert forall|i: int| 0 <= i < p.len() && is_ws(#[trigger] p[i]) implies p[i] == ' '
                && 0 < i < p.len() - 1 && !is_ws(p[i - 1]) && !is_ws(p[i + 1]) by {
                assert(p[i] == t[i]);
                assert(p[i - 1] == t[i - 1]);
                assert(p[i + 1] == t[i + 1]);
            }
            lemma_collapse_fixed(p);
            assert(t =~= p.push(t.last()));
        }
    }
}

// ---------------------------------------------------------------------------
// Searching
// ---------------------------------------------------------------------------

/// `pat` occurs in `s` at index `i`.
pub open spec fn occurs_at(s: Seq<char>, i: int, pat: Seq<char>) -> bool {
    0 <= i && i + pat.len() <= s.len() && s.subrange(i, i + pat.len()) == pat
}

/// `pat` occurs in `s` at index `i`, up to ASCII case.
pub open spec fn occurs_at_ignore_case(s: Seq<char>, i: int, pat: Seq<char>) -> bool {
    0 <= i && i + pat.len() <= s.len() && eq_ignore_case(s.subrange(i, i + pat.len()), pat)
}

/// Whether `pat` occurs in `s` at index `i`.
pub fn matches_at(s: &[char], i: usize, pat: &[char]) -> (r: bool)
    ensures
        r == occurs_at(s@, i as int, pat@),
{
    if i > s.len() || pat.len() > s.len() - i {
        return false;
    }
    let mut k: usize = 0;
    let n = s.len();
    while k < pat.len()
        invariant
            n == s@.len(),
            i + pat@.len() <= s@.len(),
            k <= pat@.len(),
            forall|m: int| 0 <= m < k ==> s@[i + m] == pat@[m],
        decreases pat@.len() - k,
    {
        let idx: usize = i + (k as usize);
        if s[idx] != pat[k] {
            assert(s@.subrange(i as int, i + pat@.len())[k as int] != pat@[k as int]);
            return false;
        }
        k = k + 1;
    }
    assert(s@.subrange(i as int, i + pat@.len()) =~= pat@);
    true
}

/// Whether `pat` occurs in `s` at index `i`, up to ASCII case.
pub fn matches_at_ignore_case(s: &[char], i: usize, pat: &[char]) -> (r: bool)
    ensures
        r == occurs_at_ignore_case(s@, i as int, pat@),
{
    if i > s.len() || pat.len() > s.len() - i {
        return false;
    }
    let mut k: usize = 0;
    let n = s.len();
    while k < pat.len()
        invariant
            n == s@.len(),
            i + pat@.len() <= s@.len(),
            k <= pat@.len(),
            forall|m: int| 0 <= m < k ==> lower(s@[i + m]) == lower(pat@[m]),
        decreases pat@.len() - k,
    {
        let idx: usize = i + (k as usize);
        if lower_char(s[idx]) != lower_char(pat[k]) {
            assert(lower_seq(s@.subrange(i as int, i + pat@.len()))[k as int] != lower_seq(pat@)[k as int]);
            return false;
        }
        k = k + 1;
    }
    assert(lower_seq(s@.subrange(i as int, i + pat@.len())) =~= lower_seq(pat@));
    true
}

/// The first index at or after `from` where `pat` occurs in `s`.
pub open spec fn is_first_occurrence(s: Seq<char>, from: int, pat: Seq<char>, i: int) -> bool {
    from <= i && occurs_at(s, i, pat) && forall|j: int| from <= j < i ==> !occurs_at(s, j, pat)
}

/// The first index at or after `from` where `pat` occurs in `s`, if any (`str::find`).
pub fn find_from(s: &[char], from: usize, pat: &[char]) -> (r: Option<usize>)
    requires
        from <= s@.len(),
    ensures
        r matches Some(i) ==> is_first_occurrence(s@, from as int, pat@, i as int),
        r is None ==> forall|j: int| from <= j ==> !occurs_at(s@, j, pat@),
{
    let mut i = from;
    while i < s.len()
        invariant
            from <= i <= s@.len(),
            forall|j: int| from <= j < i ==> !occurs_at(s@, j, pat@),
        decreases s@.len() - i,
    {
        if matches_at(s, i, pat) {
            return Some(i);
        }
        i = i + 1;
    }
    if matches_at(s, i, pat) {
        return Some(i);
    }
    assert forall|j: int| from <= j implies !occurs_at(s@, j, pat@) by {
        if j > s@.len() {
        }
    }
    None
}

/// The first index at or after `from` where `pat` occurs in `s` up to ASCII case.
pub open spec fn is_first_occurrence_ignore_case(
    s: Seq<char>,
    from: int,
    pat: Seq<char>,
    i: int,
) -> bool {
    from <= i && occurs_at_ignore_case(s, i, pat) && forall|j: int|
        from <= j < i ==> !occurs_at_ignore_case(s, j, pat)
}

/// The first index at or after `from` where `pat` occurs in `s` up to ASCII case, if any.
pub fn find_ignore_case_from(s: &[char], from: usize, pat: &[char]) -> (r: Option<usize>)
    requires
        from <= s@.len(),
    ensures
        r matches Some(i) ==> is_first_occurrence_ignore_case(s@, from as int, pat@, i as int),
        r is None ==> forall|j: int| from <= j ==> !occurs_at_ignore_case(s@, j, pat@),
{
    let mut i = from;
    while i < s.len()
        invariant
            from <= i <= s@.len(),
            forall|j: int| from <= j < i ==> !occurs_at_ignore_case(s@, j, pat@),
        decreases s@.len() - i,
    {
        if matches_at_ignore_case(s, i, pat) {
            return Some(i);
        }
        i = i + 1;
    }
    if matches_at_ignore_case(s, i, pat) {
        return Some(i);
    }
    None
}

/// The first index at or after `from` where character `c` occurs.
pub fn find_char_from(s: &[char], from: usize, c: char) -> (r: Option<usize>)
    requires
        from <= s@.len(),
    ensures
        r matches Some(i) ==> from <= i < s@.len() && s@[i as int] == c && forall|j: int|
            from <= j < i ==> s@[j] != c,
        r is None ==> forall|j: int| from <= j < s@.len() ==> s@[j] != c,
{
    let mut i = from;
    while i < s.len()
        invariant
            from <= i <= s@.len(),
            forall|j: int| from <= j < i ==> s@[j] != c,
        decreases s@.len() - i,
    {
        if s[i] == c {
            return Some(i);
        }
        i = i + 1;
    }
    None
}

// ---------------------------------------------------------------------------
// Replacing
// ---------------------------------------------------------------------------

/// `s` with every occurrence of `pat` replaced by `rep`, scanning left to right
/// without overlaps (`str::replace`); `pat` is not empty.
pub open spec fn replace_all(s: Seq<char>, pat: Seq<char>, rep: Seq<char>) -> Seq<char>
    decreases s.len(),
{
    if pat.len() == 0 || s.len() == 0 {
        s
    } else if s.len() >= pat.len() && s.take(pat.len() as int) == pat {
        rep + replace_all(s.skip(pat.len() as int), pat, rep)
    } else {
        seq![s[0]] + replace_all(s.drop_first(), pat, rep)
    }
}

/// `pat` occurs somewhere in `s`.
pub open spec fn contains_seq(s: Seq<char>, pat: Seq<char>) -> bool {
    exists|i: int| occurs_at(s, i, pat)
}

/// Where the first `m` characters of a replacement's result hold no
/// character of `rep`, they were copied from `s` unchanged.
proof fn lemma_replace_all_prefix(s: Seq<char>, pat: Seq<char>, rep: Seq<char>, m: int)
    requires
        pat.len() > 0,
        rep.len() > 0,
        0 <= m <= replace_all(s, pat, rep).len(),
        forall|j: int| 0 <= j < m ==> !rep.contains(#[trigger] replace_all(s, pat, rep)[j]),
    ensures
        m <= s.len(),
        replace_all(s, pat, rep).take(m) == s.take(m),
    decreases s.len(),
{
    let r = replace_all(s, pat, rep);
    if s.len() == 0 {
    } else if s.len() >= pat.len() && s.take(pat.len() as int) == pat {
        if m > 0 {
            assert(r[0] == rep[0]);
            assert(rep.contains(rep[0]));
            assert(!rep.contains(r[0]));
        }
        assert(r.take(m) =~= s.take(m));
    } else {
        let t = s.drop_first();
        let r2 = replace_all(t, pat, rep);
        assert(r == seq![s[0]] + r2);
        if m > 0 {
            assert forall|j: int| 0 <= j < m - 1 implies !rep.contains(#[trigger] r2[j]) by {
                assert(r[j + 1] == r2[j]);
            }
            lemma_replace_all_prefix(t, pat, rep, m - 1);
            assert(r.take(m) =~= seq![s[0]] + r2.take(m - 1));
            assert(s.take(m) =~= seq![s[0]] + t.take(m - 1));
        } else {
            assert(r.take(m) =~= s.take(m));
        }
    }
}

/// Replacing every occurrence of `pat` by a non-empty `rep` that shares no
/// character with `pat` leaves no occurrence of `pat`.
pub proof fn lemma_replace_all_removes(s: Seq<char>, pat: Seq<char>, rep: Seq<char>)
    requires
        pat.len() > 0,
        rep.len() > 0,
        forall|j: int| 0 <= j < pat.len() ==> !rep.contains(#[trigger] pat[j]),
    ensures
        !contains_seq(replace_all(s, pat, rep), pat),
    decreases s.len(),
{
    let r = replace_all(s, pat, rep);
    let k = pat.len() as int;
    if s.len() == 0 {
        assert forall|i: int| !occurs_at(r, i, pat) by {}
    } else if s.len() >= pat.len() && s.take(k) == pat {
        let t = s.skip(k);
        let r2 = replace_all(t, pat, rep);
        lemma_replace_all_removes(t, pat, rep);
        assert(r == rep + r2);
        assert forall|i: int| !occurs_at(r, i, pat) by {
            if occurs_at(r, i, pat) {
                if i < rep.len() {
                    assert(r.subrange(i, i + k)[0] == pat[0]);
                    assert(r[i] == rep[i]);
                    assert(rep.contains(rep[i]));
                    assert(!rep.contains(pat[0]));
                } else {
                    assert(r2.subrange(i - rep.len(), i - rep.len() + k) =~= r.subrange(i, i + k));
                    assert(occurs_at(r2, i - rep.len(), pat));
                }
            }
        }
    } else {
        let t = s.drop_first();
        let r2 = replace_all(t, pat, rep);
        lemma_replace_all_removes(t, pat, rep);
        assert(r == seq![s[0]] + r2);
        assert forall|i: int| !occurs_at(r, i, pat) by {
            if occurs_at(r, i, pat) {
                if i >= 1 {
                    assert(r2.subrange(i - 1, i - 1 + k) =~= r.subrange(i, i + k));
                    assert(occurs_at(r2, i - 1, pat));
                } else {
                    assert forall|j: int| 0 <= j < k - 1 implies !rep.contains(#[trigger] r2[j]) by {
                        assert(r2[j] == r.subrange(0, k)[j + 1]);
                        assert(r2[j] == pat[j + 1]);
                    }
                    lemma_replace_all_prefix(t, pat, rep, k - 1);
                    assert(s.take(k) =~= seq![s[0]] + t.take(k - 1));
                    assert(r.subrange(0, k) =~= seq![s[0]] + r2.take(k - 1));
                    assert(s.take(k) =~= pat);
                }
            }
        }
    }
}

/// Appends `more` to `out`.
pub fn append_chars(out: &mut Vec<char>, more: &[char])
    ensures
        final(out)@ == old(out)@ + more@,
{
    let ghost start = out@;
    let mut k: usize = 0;
    while k < more.len()
        invariant
            k <= more@.len(),
            out@ == start + more@.take(k as int),
        decreases more@.len() - k,
    {
        out.push(more[k]);
        assert(more@.take(k + 1) =~= more@.take(k as int).push(more@[k as int]));
        k = k + 1;
    }
    assert(more@.take(more@.len() as int) =~= more@);
}

/// Every occurrence of `pat` in `s` replaced by `rep`.
pub fn replace_chars(s: &[char], pat: &[char], rep: &[char]) -> (out: Vec<char>)
    requires
        pat@.len() > 0,
    ensures
        out@ == replace_all(s@, pat@, rep@),
{
    let mut out: Vec<char> = Vec::new();
    let mut i: usize = 0;
    assert(s@.skip(0) =~= s@);
    while i < s.len()
        invariant
            i <= s@.len(),
            pat@.len() > 0,
            out@ + replace_all(s@.skip(i as int), pat@, rep@) == replace_all(s@, pat@, rep@),
        decreases s@.len() - i,
    {
        let ghost rest = s@.skip(i as int);
        if matches_at(s, i, pat) {
            assert(rest.take(pat@.len() as int) =~= s@.subrange(i as int, i + pat@.len()));
            assert(rest.skip(pat@.len() as int) =~= s@.skip(i + pat@.len()));
            append_chars(&mut out, rep);
            assert(out@ + replace_all(s@.skip(i + pat@.len()), pat@, rep@) =~= (out@.subrange(0, out@.len() - rep@.len()) + (rep@ + replace_all(rest.skip(pat@.len() as int), pat@, rep@))));
            i = i + pat.len();
        } else {
            assert(!(rest.len() >= pat@.len() && rest.take(pat@.len() as int) == pat@)) by {
                if rest.len() >= pat@.len() && rest.take(pat@.len() as int) == pat@ {
                    assert(s@.subrange(i as int, i + pat@.len()) =~= rest.take(pat@.len() as int));
                }
            }
            assert(rest.drop_first() =~= s@.skip(i + 1));
            out.push(s[i]);
            assert(out@ + replace_all(s@.skip(i + 1), pat@, rep@) =~= out@.drop_last() + (seq![s@[i as int]] + replace_all(rest.drop_first(), pat@, rep@)));
            i = i + 1;
        }
    }
    assert(s@.skip(i as int).len() == 0);
    assert(out@ + replace_all(s@.skip(i as int), pat@, rep@) =~= out@);
    out
}


// ---------------------------------------------------------------------------
// First occurrences as values
// ---------------------------------------------------------------------------

/// The first index at or after `from` where `pat` occurs in `s`.
pub open spec fn first_occurrence(s: Seq<char>, from: int, pat: Seq<char>) -> Option<int> {
    if exists|i: int| is_first_occurrence(s, from, pat, i) {
        Some(choose|i: int| is_first_occurrence(s, from, pat, i))
    } else {
        None
    }
}

/// The first index at or after `from` where `pat` occurs in `s` up to ASCII case.
pub open spec fn first_occurrence_ignore_case(s: Seq<char>, from: int, pat: Seq<char>) -> Option<int> {
    if exists|i: int| is_first_occurrence_ignore_case(s, from, pat, i) {
        Some(choose|i: int| is_first_occurrence_ignore_case(s, from, pat, i))
    } else {
        None
    }
}

/// An `Option<usize>` read as an optional mathematical integer.
pub open spec fn opt_int(o: Option<usize>) -> Option<int> {
    match o {
        Some(i) => Some(i as int),
        None => None,
    }
}

/// There is at most one first occurrence.
pub proof fn lemma_first_occurrence_unique(s: Seq<char>, from: int, pat: Seq<char>, i: int)
    requires
        is_first_occurrence(s, from, pat, i),
    ensures
        first_occurrence(s, from, pat) == Some(i),
{
    let k = choose|k: int| is_first_occurrence(s, from, pat, k);
    assert(is_first_occurrence(s, from, pat, k));
    if k < i {
        assert(!occurs_at(s, k, pat));
    } else if i < k {
        assert(!occurs_at(s, i, pat));
    }
}

/// There is at most one first occurrence up to ASCII case.
pub proof fn lemma_first_occurrence_ignore_case_unique(
    s: Seq<char>,
    from: int,
    pat: Seq<char>,
    i: int,
)
    requires
        is_first_occurrence_ignore_case(s, from, pat, i),
    ensures
        first_occurrence_ignore_case(s, from, pat) == Some(i),
{
    let k = choose|k: int| is_first_occurrence_ignore_case(s, from, pat, k);
    assert(is_first_occurrence_ignore_case(s, from, pat, k));
    if k < i {
        assert(!occurs_at_ignore_case(s, k, pat));
    } else if i < k {
        assert(!occurs_at_ignore_case(s, i, pat));
    }
}

/// The first index at or after `from` where `pat` occurs in `s`.
pub fn find(s: &[char], from: usize, pat: &[char]) -> (r: Option<usize>)
    requires
        from <= s@.len(),
    ensures
        opt_int(r) == first_occurrence(s@, from as int, pat@),
        r matches Some(i) ==> from <= i && i + pat@.len() <= s@.len(),
{
    let r = find_from(s, from, pat);
    proof {
        match r {
            Some(i) => {
                lemma_first_occurrence_unique(s@, from as int, pat@, i as int);
            },
            None => {
                assert(!exists|i: int| is_first_occurrence(s@, from as int, pat@, i));
            },
        }
    }
    r
}

/// The first index at or after `from` where `pat` occurs in `s` up to ASCII case.
pub fn find_ignore_case(s: &[char], from: usize, pat: &[char]) -> (r: Option<usize>)
    requires
        from <= s@.len(),
    ensures
        opt_int(r) == first_occurrence_ignore_case(s@, from as int, pat@),
        r matches Some(i) ==> from <= i && i + pat@.len() <= s@.len(),
{
    let r = find_ignore_case_from(s, from, pat);
    proof {
        match r {
            Some(i) => {
                lemma_first_occurrence_ignore_case_unique(s@, from as int, pat@, i as int);
            },
            None => {
                assert(!exists|i: int| is_first_occurrence_ignore_case(s@, from as int, pat@, i));
            },
        }
    }
    r
}

/// Whether two character sequences are equal.
pub fn chars_eq(a: &[char], b: &[char]) -> (r: bool)
    ensures
        r == (a@ == b@),
{
    if a.len() != b.len() {
        return false;
    }
    let r = matches_at(a, 0, b);
    proof {
        if r {
            assert(a@.subrange(0, b@.len() as int) =~= a@);
        } else {
            assert(a@.subrange(0, b@.len() as int) =~= a@);
        }
    }
    r
}

/// `s` with every character passed through `lower`.
pub fn lower_chars(s: &[char]) -> (out: Vec<char>)
    ensures
        out@ == lower_seq(s@),
{
    let mut out: Vec<char> = Vec::new();
    for i in 0..s.len()
        invariant
            out@ == lower_seq(s@.take(i as int)),
    {
        out.push(lower_char(s[i]));
        assert(lower_seq(s@.take(i + 1)) =~= lower_seq(s@.take(i as int)).push(lower(s@[i as int])));
    }
    assert(s@.take(s@.len() as int) =~= s@);
    out
}

/// Whether `a` and `b` are equal up to ASCII case.
pub fn chars_eq_ignore_case(a: &[char], b: &[char]) -> (r: bool)
    ensures
        r == eq_ignore_case(a@, b@),
{
    let la = lower_chars(a);
    let lb = lower_chars(b);
    chars_eq(la.as_slice(), lb.as_slice())
}


/// Whether the text `s` is exactly the literal `lit`.
pub fn str_is(s: &str, lit: &str) -> (r: bool)
    ensures
        r == (s@ == lit@),
{
    let a = chars_of(s);
    let b = chars_of(lit);
    chars_eq(a.as_slice(), b.as_slice())
}

/// The strings of `v`, as a set of character sequences.
pub open spec fn string_set(v: Seq<String>) -> Set<Seq<char>> {
    Set::new(|x: Seq<char>| exists|i: int| 0 <= i < v.len() && v[i]@ == x)
}

/// Whether `v` holds a string equal to `s`.
pub fn contains_string(v: &Vec<String>, s: &String) -> (r: bool)
    ensures
        r == string_set(v@).contains(s@),
{
    for i in 0..v.len()
        invariant
            forall|j: int| 0 <= j < i ==> v@[j]@ != s@,
    {
        if v[i].eq(s) {
            return true;
        }
    }
    false
}

} // verus!
