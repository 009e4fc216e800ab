//! Character-level helpers: line splitting and whitespace trimming as `str`
//! does them, over sequences of characters.
use vstd::prelude::*;

verus! {

/// Whether `c` has the Unicode `White_Space` property, which is what
/// `char::is_whitespace` and `str::trim` go by: tab, line feed, vertical
/// tab, form feed, carriage return, space, next line, no-break space,
/// Ogham space mark, the spaces U+2000 to U+200A, line separator, paragraph
/// separator, narrow no-break space, medium mathematical space and
/// ideographic space.
pub open spec fn white_space(c: char) -> bool {
    let u = c as u32;
    ||| 0x9 <= u <= 0xd
    ||| u == 0x20
    ||| u == 0x85
    ||| u == 0xa0
    ||| u == 0x1680
    ||| 0x2000 <= u <= 0x200a
    ||| u == 0x2028
    ||| u == 0x2029
    ||| u == 0x202f
    ||| u == 0x205f
    ||| u == 0x3000
}

/// Whether `c` is whitespace.
pub fn is_white_space(c: char) -> (r: bool)
    ensures
        r == white_space(c),
{
    let u = c as u32;
    (0x9 <= u && u <= 0xd) || u == 0x20 || u == 0x85 || u == 0xa0 || u == 0x1680 || (0x2000 <= u
        && u <= 0x200a) || u == 0x2028 || u == 0x2029 || u == 0x202f || u == 0x205f || u == 0x3000
}

/// `String::push`: the character is appended at the end.
#[verifier::external_body]
pub(crate) fn push_char(s: &mut String, c: char)
    ensures
        final(s)@ == old(s)@.push(c),
{
    s.push(c)
}

/// The characters of a string slice, in order.
pub fn chars_of(s: &str) -> (v: Vec<char>)
    ensures
        v@ == s@,
{
    let mut v: Vec<char> = Vec::new();
    for c in it: s.chars()
        invariant
            v@ == it.seq().take(it.index()),
            it.seq() == s@,
    {
        v.push(c);
    }
    v
}


/// Leading characters with the `White_Space` property removed.
pub open spec fn trim_start(s: Seq<char>) -> Seq<char>
    decreases s.len(),
{
    if s.len() > 0 && white_space(s[0]) {
        trim_start(s.drop_first())
    } else {
        s
    }
}

/// Trailing characters with the `White_Space` property removed.
pub open spec fn trim_end(s: Seq<char>) -> Seq<char>
    decreases s.len(),
{
    if s.len() > 0 && white_space(s.last()) {
        trim_end(s.drop_last())
    } else {
        s
    }
}

/// What `str::trim` leaves of `s`: both ends stripped of whitespace.
pub open spec fn trimmed(s: Seq<char>) -> Seq<char> {
    trim_end(trim_start(s))
}

proof fn lemma_trim_start_skip(s: Seq<char>, i: int)
    requires
        0 <= i <= s.len(),
        forall|k: int| 0 <= k < i ==> white_space(#[trigger] s[k]),
        i == s.len() || !white_space(s[i]),
    ensures
        trim_start(s) == s.skip(i),
    decreases i,
{
    if i == 0 {
        assert(s.skip(0) =~= s);
    } else {
        assert forall|k: int| 0 <= k < i - 1 implies white_space(#[trigger] s.drop_first()[k]) by {
            assert(s.drop_first()[k] == s[k + 1]);
        }
        if i - 1 < s.drop_first().len() {
            assert(s.drop_first()[i - 1] == s[i]);
        }
        lemma_trim_start_skip(s.drop_first(), i - 1);
        assert(s.drop_first().skip(i - 1) =~= s.skip(i));
    }
}

proof fn lemma_trim_end_take(s: Seq<char>, j: int)
    requires
        0 <= j <= s.len(),
        forall|k: int| j <= k < s.len() ==> white_space(#[trigger] s[k]),
        j == 0 || !white_space(s[j - 1]),
    ensures
        trim_end(s) == s.take(j),
    decreases s.len() - j,
{
    if j == s.len() {
        assert(s.take(j) =~= s);
    } else {
        assert(white_space(s.last()));
        assert forall|k: int| j <= k < s.drop_last().len() implies white_space(#[trigger] s.drop_last()[k]) by {
            assert(s.drop_last()[k] == s[k]);
        }
        if j > 0 {
            assert(s.drop_last()[j - 1] == s[j - 1]);
        }
        lemma_trim_end_take(s.drop_last(), j);
        assert(s.drop_last().take(j) =~= s.take(j));
    }
}

/// `v` with whitespace removed from both ends, as `str::trim` does it.
pub fn trim_chars(v: &Vec<char>) -> (r: Vec<char>)
    ensures
        r@ == trimmed(v@),
{
    let n = v.len();
    let mut i: usize = 0;
    while i < n && is_white_space(v[i])
        invariant
            0 <= i <= n,
            n == v@.len(),
            forall|k: int| 0 <= k < i ==> white_space(#[trigger] v@[k]),
        decreases n - i,
    {
        i = i + 1;
    }
    proof {
        lemma_trim_start_skip(v@, i as int);
    }
    let ghost rest = v@.skip(i as int);
    let mut j: usize = n;
    while j > i && is_white_space(v[j - 1])
        invariant
            i <= j <= n,
            n == v@.len(),
            rest == v@.skip(i as int),
            forall|k: int| j <= k < n ==> white_space(#[trigger] v@[k]),
        decreases j,
    {
        j = j - 1;
    }
    proof {
        assert forall|k: int| j - i <= k < rest.len() implies white_space(#[trigger] rest[k]) by {
            assert(rest[k] == v@[k + i]);
        }
        if j > i {
            assert(rest[j - i - 1] == v@[j - 1]);
        }
        lemma_trim_end_take(rest, j - i);
    }
    let mut r: Vec<char> = Vec::new();
    let mut k: usize = i;
    while k < j
        invariant
            i <= k <= j <= n,
            n == v@.len(),
            r@ == v@.subrange(i as int, k as int),
        decreases j - k,
    {
        r.push(v[k]);
        k = k + 1;
    }
    assert(r@ =~= rest.take(j - i));
    r
}

/// `l` without one carriage return at its end, as `str::lines` strips it
/// before a line feed.
pub open spec fn strip_cr(l: Seq<char>) -> Seq<char> {
    if l.len() > 0 && l.last() == '\r' {
        l.drop_last()
    } else {
        l
    }
}

/// The lines that `str::lines` yields for the text `s` when the current,
/// unfinished line holds `cur`.
pub open spec fn lines_from(s: Seq<char>, cur: Seq<char>) -> Seq<Seq<char>>
    decreases s.len(),
{
    if s.len() == 0 {
        if cur.len() == 0 {
            seq![]
        } else {
            seq![cur]
        }
    } else if s[0] == '\n' {
        seq![strip_cr(cur)] + lines_from(s.drop_first(), seq![])
    } else {
        lines_from(s.drop_first(), cur.push(s[0]))
    }
}

/// The lines of `s`: split at each line feed, a carriage return before a
/// line feed dropped, and no empty last line after a final line feed.
pub open spec fn lines(s: Seq<char>) -> Seq<Seq<char>> {
    lines_from(s, seq![])
}

/// Text that ends a line can be split off: the lines of `a + b` are the
/// lines of `a` followed by those of `b`, from an unfinished line `cur`.
pub proof fn lemma_lines_from_concat(a: Seq<char>, b: Seq<char>, cur: Seq<char>)
    requires
        a.len() > 0,
        a.last() == '\n',
    ensures
        lines_from(a + b, cur) == lines_from(a, cur) + lines_from(b, seq![]),
    decreases a.len(),
{
    assert((a + b)[0] == a[0]);
    assert((a + b).drop_first() =~= a.drop_first() + b);
    if a[0] == '\n' {
        if a.len() == 1 {
            assert(a.drop_first() + b =~= b);
            assert(a.drop_first().len() == 0);
            assert(lines_from(a, cur) =~= seq![strip_cr(cur)]);
        } else {
            assert(a.drop_first().last() == a.last());
            lemma_lines_from_concat(a.drop_first(), b, seq![]);
            assert(lines_from(a + b, cur) =~= seq![strip_cr(cur)] + lines_from(a.drop_first(), seq![])
                + lines_from(b, seq![]));
        }
    } else {
        assert(a.drop_first().last() == a.last());
        lemma_lines_from_concat(a.drop_first(), b, cur.push(a[0]));
    }
}

/// The lines of `a + b`, when `a` ends with a line feed, are those of `a`
/// followed by those of `b`.
pub proof fn lemma_lines_concat(a: Seq<char>, b: Seq<char>)
    requires
        a.len() > 0,
        a.last() == '\n',
    ensures
        lines(a + b) == lines(a) + lines(b),
{
    lemma_lines_from_concat(a, b, seq![]);
}

/// The views of a vector of character vectors.
pub open spec fn views_of(v: Seq<Vec<char>>) -> Seq<Seq<char>> {
    v.map_values(|l: Vec<char>| l@)
}

/// The lines of `s`, as `str::lines` yields them.
pub fn split_lines(s: &Vec<char>) -> (r: Vec<Vec<char>>)
    ensures
        views_of(r@) == lines(s@),
{
    let n = s.len();
    let mut r: Vec<Vec<char>> = Vec::new();
    let mut cur: Vec<char> = Vec::new();
    let mut i: usize = 0;
    assert(s@.skip(0) =~= s@);
    assert(views_of(r@) =~= Seq::<Seq<char>>::empty());
    assert(cur@ =~= Seq::<char>::empty());
    while i < n
        invariant
            0 <= i <= n,
            n == s@.len(),
            views_of(r@) + lines_from(s@.skip(i as int), cur@) == lines(s@),
        decreases n - i,
    {
        let ghost rest = s@.skip(i as int);
        assert(rest[0] == s@[i as int]);
        assert(rest.drop_first() =~= s@.skip(i + 1));
        if s[i] == '\n' {
            let ghost cur_before = cur@;
            let len = cur.len();
            let line = if len > 0 && cur[len - 1] == '\r' {
                let mut l = cur;
                l.pop();
                l
            } else {
                cur
            };
            assert(line@ == strip_cr(cur_before)) by {
                if cur_before.len() > 0 && cur_before.last() == '\r' {
                    assert(line@ =~= cur_before.drop_last());
                }
            }
            let ghost before = views_of(r@);
            r.push(line);
            assert(views_of(r@) =~= before + seq![line@]);
            cur = Vec::new();
            assert(cur@ =~= Seq::<char>::empty());
            assert(lines_from(rest, cur_before) == seq![strip_cr(cur_before)] + lines_from(rest.drop_first(), seq![]));
            assert(views_of(r@) + lines_from(rest.drop_first(), cur@) =~= before + lines_from(rest, cur_before));
        } else {
            let ghost cur_before = cur@;
            cur.push(s[i]);
            assert(lines_from(rest, cur_before) == lines_from(rest.drop_first(), cur@));
        }
        i = i + 1;
    }
    assert(s@.skip(n as int) =~= Seq::<char>::empty());
    if cur.len() > 0 {
        let ghost before = views_of(r@);
        let ghost last = cur@;
        r.push(cur);
        assert(views_of(r@) =~= before + seq![last]);
    }
    r
}

/// A string holding the characters of `v`, in order.
pub fn string_of(v: &Vec<char>) -> (s: String)
    ensures
        s@ == v@,
{
    let mut s = String::new();
    let mut i: usize = 0;
    while i < v.len()
        invariant
            0 <= i <= v@.len(),
            s@ == v@.take(i as int),
        decreases v@.len() - i,
    {
        push_char(&mut s, v[i]);
        assert(v@.take(i + 1) =~= v@.take(i as int).push(v@[i as int]));
        i = i + 1;
    }
    assert(v@.take(v@.len() as int) =~= v@);
    s
}

/// What `s.trim().to_string()` gives.
pub fn trimmed_string(s: &str) -> (r: String)
    ensures
        r@ == trimmed(s@),
{
    let v = chars_of(s);
    let t = trim_chars(&v);
    string_of(&t)
}

/// Whether two string slices hold the same characters.
pub fn str_eq(a: &str, b: &str) -> (r: bool)
    ensures
        r == (a@ == b@),
{
    let x = chars_of(a);
    let y = chars_of(b);
    if x.len() != y.len() {
        return false;
    }
    let mut i: usize = 0;
    while i < x.len()
        invariant
            0 <= i <= x@.len(),
            x@.len() == y@.len(),
            x@ == a@,
            y@ == b@,
            forall|k: int| 0 <= k < i ==> x@[k] == y@[k],
        decreases x@.len() - i,
    {
        if x[i] != y[i] {
            return false;
        }
        i = i + 1;
    }
    assert(x@ =~= y@);
    true
}

/// A string holding the characters of `a` followed by those of `b`.
pub fn concat(a: &str, b: &str) -> (r: String)
    ensures
        r@ == a@ + b@,
{
    let x = chars_of(a);
    let y = chars_of(b);
    let mut r = string_of(&x);
    let mut i: usize = 0;
    while i < y.len()
        invariant
            0 <= i <= y@.len(),
            r@ == a@ + y@.take(i as int),
        decreases y@.len() - i,
    {
        push_char(&mut r, y[i]);
        assert(y@.take(i + 1) =~= y@.take(i as int).push(y@[i as int]));
        assert(a@ + y@.take(i + 1) =~= (a@ + y@.take(i as int)).push(y@[i as int]));
        i = i + 1;
    }
    assert(y@.take(y@.len() as int) =~= y@);
    r
}

/// What `str::to_lowercase` gives for the characters `s`: their Unicode
/// lowercase form (a character's mapping may depend on its neighbours, as
/// for a word-final capital sigma, and may be several characters).
pub uninterp spec fn lowercase(s: Seq<char>) -> Seq<char>;

/// An ASCII character in lower case: `A` to `Z` become `a` to `z`, any
/// other character stays.
pub open spec fn ascii_lower_char(c: char) -> char {
    if 65 <= (c as u32) <= 90 {
        ((c as u32) + 32) as char
    } else {
        c
    }
}

/// Characters that are all ASCII.
pub open spec fn is_ascii_text(s: Seq<char>) -> bool {
    forall|i: int| 0 <= i < s.len() ==> (#[trigger] s[i] as u32) < 128
}

/// Text with its ASCII capitals in lower case.
pub open spec fn ascii_lowered(s: Seq<char>) -> Seq<char> {
    s.map_values(|c: char| ascii_lower_char(c))
}

/// `str::to_lowercase`: the result is the lowercase form of `s`, named
/// above. The contract also claims what std documents for ASCII text: each
/// capital letter `A` to `Z` becomes its small letter and every other ASCII
/// character stays as it is.
#[verifier::external_body]
pub(crate) fn to_lowercase(s: &str) -> (r: String)
    ensures
        r@ == lowercase(s@),
        is_ascii_text(s@) ==> r@ == ascii_lowered(s@),
{
    s.to_lowercase()
}

} // verus!
