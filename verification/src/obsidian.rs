//! Obsidian notes: the YAML front matter between `---` fences, and the
//! `publish` property that marks a note for copying.
use vstd::prelude::*;
use crate::text::{
    chars_of, lemma_lines_concat, lines, lines_from, push_char, split_lines, strip_cr, trim_chars,
    trimmed, views_of,
};

verus! {

/// The properties of a note's front matter that decide whether it is copied.
#[derive(Debug, Clone, Copy, PartialEq, Eq)]
pub struct Frontmatter {
    pub publish: Option<bool>,
}

/// A fence line: `---` once surrounding whitespace is trimmed.
pub open spec fn is_fence(l: Seq<char>) -> bool {
    trimmed(l) == seq!['-', '-', '-']
}

/// The lines of `ls` before the first fence, each followed by a line feed;
/// nothing when no line of `ls` is a fence.
pub open spec fn closed_body(ls: Seq<Seq<char>>) -> Option<Seq<char>>
    decreases ls.len(),
{
    if ls.len() == 0 {
        None
    } else if is_fence(ls[0]) {
        Some(seq![])
    } else {
        match closed_body(ls.drop_first()) {
            Some(b) => Some(ls[0] + seq!['\n'] + b),
            None => None,
        }
    }
}

/// `prefix` put before the text, if there is one.
pub open spec fn prefixed(prefix: Seq<char>, o: Option<Seq<char>>) -> Option<Seq<char>> {
    match o {
        Some(b) => Some(prefix + b),
        None => None,
    }
}

/// The YAML text of a note's front matter: the lines between its first
/// line, a fence, and the next fence; nothing when the note does not begin
/// with a fence or the fence is never closed.
pub open spec fn frontmatter_text(md: Seq<char>) -> Option<Seq<char>> {
    let ls = lines(md);
    if ls.len() > 0 && is_fence(ls[0]) {
        closed_body(ls.drop_first())
    } else {
        None
    }
}

/// Lines after a closing fence do not change the text before it.
pub proof fn lemma_closed_body_prefix(l1: Seq<Seq<char>>, l2: Seq<Seq<char>>)
    requires
        closed_body(l1) is Some,
    ensures
        closed_body(l1 + l2) == closed_body(l1),
    decreases l1.len(),
{
    assert((l1 + l2)[0] == l1[0]);
    if !is_fence(l1[0]) {
        assert((l1 + l2).drop_first() =~= l1.drop_first() + l2);
        lemma_closed_body_prefix(l1.drop_first(), l2);
    }
}

/// What follows a note's closed front matter is ignored: appending any text
/// after a note whose front matter is closed (and whose last line ends with
/// a line feed) leaves its front matter as it was.
pub proof fn lemma_text_after_front_matter_ignored(head: Seq<char>, tail: Seq<char>)
    requires
        head.len() > 0,
        head.last() == '\n',
        frontmatter_text(head) is Some,
    ensures
        frontmatter_text(head + tail) == frontmatter_text(head),
{
    lemma_lines_concat(head, tail);
    let l1 = lines(head);
    let l2 = lines(tail);
    assert((l1 + l2)[0] == l1[0]);
    assert((l1 + l2).drop_first() =~= l1.drop_first() + l2);
    lemma_closed_body_prefix(l1.drop_first(), l2);
}

/// The text of the lines `ls`, each followed by a line feed.
pub open spec fn joined(ls: Seq<Seq<char>>) -> Seq<char>
    decreases ls.len(),
{
    if ls.len() == 0 {
        seq![]
    } else {
        ls[0] + seq!['\n'] + joined(ls.drop_first())
    }
}

/// A single line: no line feed or carriage return in it.
pub open spec fn plain_line(l: Seq<char>) -> bool {
    !l.contains('\n') && !l.contains('\r')
}

proof fn lemma_lines_of_one_line(l: Seq<char>, cur: Seq<char>)
    requires
        !l.contains('\n'),
    ensures
        lines_from(l + seq!['\n'], cur) == seq![strip_cr(cur + l)],
    decreases l.len(),
{
    let s = l + seq!['\n'];
    if l.len() == 0 {
        assert(s =~= seq!['\n']);
        assert(s[0] == '\n');
        assert(s.drop_first().len() == 0);
        assert(lines_from(s.drop_first(), seq![]) =~= Seq::<Seq<char>>::empty());
        assert(cur + l =~= cur);
        assert(lines_from(s, cur) =~= seq![strip_cr(cur)] + lines_from(s.drop_first(), seq![]));
        assert(lines_from(s, cur) =~= seq![strip_cr(cur)]);
    } else {
        assert(s[0] == l[0]);
        assert(s.drop_first() =~= l.drop_first() + seq!['\n']);
        assert(!l.drop_first().contains('\n')) by {
            if l.drop_first().contains('\n') {
                let k = choose|k: int| 0 <= k < l.drop_first().len() && l.drop_first()[k] == '\n';
                assert(l[k + 1] == '\n');
            }
        }
        assert(l[0] != '\n') by {
            if l[0] == '\n' {
                assert(l.contains('\n'));
            }
        }
        lemma_lines_of_one_line(l.drop_first(), cur.push(l[0]));
        assert(cur.push(l[0]) + l.drop_first() =~= cur + l);
    }
}

proof fn lemma_lines_joined(ls: Seq<Seq<char>>, x: Seq<char>)
    requires
        forall|i: int| 0 <= i < ls.len() ==> plain_line(#[trigger] ls[i]),
    ensures
        lines(joined(ls) + x) == ls + lines(x),
    decreases ls.len(),
{
    if ls.len() == 0 {
        assert(joined(ls) + x =~= x);
        assert(ls + lines(x) =~= lines(x));
    } else {
        let head = ls[0] + seq!['\n'];
        assert(plain_line(ls[0]));
        assert(joined(ls) + x =~= head + (joined(ls.drop_first()) + x));
        lemma_lines_concat(head, joined(ls.drop_first()) + x);
        lemma_lines_of_one_line(ls[0], seq![]);
        assert(seq![] + ls[0] =~= ls[0]);
        assert(strip_cr(ls[0]) == ls[0]) by {
            if ls[0].len() > 0 && ls[0].last() == '\r' {
                assert(ls[0].contains('\r'));
            }
        }
        assert forall|i: int| 0 <= i < ls.drop_first().len() implies plain_line(
            #[trigger] ls.drop_first()[i],
        ) by {
            assert(ls.drop_first()[i] == ls[i + 1]);
        }
        lemma_lines_joined(ls.drop_first(), x);
        assert(ls =~= seq![ls[0]] + ls.drop_first());
    }
}

proof fn lemma_closed_body_block(body: Seq<Seq<char>>, after: Seq<Seq<char>>)
    requires
        forall|i: int| 0 <= i < body.len() ==> !is_fence(#[trigger] body[i]),
        after.len() > 0,
        is_fence(after[0]),
    ensures
        closed_body(body + after) == Some(joined(body)),
    decreases body.len(),
{
    if body.len() == 0 {
        assert(body + after =~= after);
    } else {
        assert((body + after)[0] == body[0]);
        assert(!is_fence(body[0]));
        assert((body + after).drop_first() =~= body.drop_first() + after);
        assert forall|i: int| 0 <= i < body.drop_first().len() implies !is_fence(
            #[trigger] body.drop_first()[i],
        ) by {
            assert(body.drop_first()[i] == body[i + 1]);
        }
        lemma_closed_body_block(body.drop_first(), after);
    }
}

/// A note's front matter is exactly the lines between its opening line and
/// the next line that, with surrounding whitespace trimmed, is `---`: for a
/// note made of an opening line and a closing line that each trim to
/// `---`, lines between them none of which trims to `---`, and any text
/// after them, the front matter is those lines, each followed by a line
/// feed. (So a list item such as `  - blog` never closes it.)
pub proof fn lemma_front_matter_runs_to_closing_fence(
    open: Seq<char>,
    body: Seq<Seq<char>>,
    close: Seq<char>,
    rest: Seq<char>,
)
    requires
        trimmed(open) == seq!['-', '-', '-'],
        trimmed(close) == seq!['-', '-', '-'],
        plain_line(open),
        plain_line(close),
        forall|i: int|
            0 <= i < body.len() ==> plain_line(#[trigger] body[i]) && trimmed(body[i]) != seq![
                '-',
                '-',
                '-',
            ],
    ensures
        frontmatter_text(joined(seq![open] + body + seq![close]) + rest) == Some(joined(body)),
{
    let all = seq![open] + body + seq![close];
    assert forall|i: int| 0 <= i < all.len() implies plain_line(#[trigger] all[i]) by {
        if 1 <= i < all.len() - 1 {
            assert(all[i] == body[i - 1]);
        }
    }
    lemma_lines_joined(all, rest);
    let ls = all + lines(rest);
    assert(ls[0] == open);
    assert(ls.drop_first() =~= body + (seq![close] + lines(rest)));
    assert forall|i: int| 0 <= i < body.len() implies !is_fence(#[trigger] body[i]) by {
        assert(trimmed(body[i]) != seq!['-', '-', '-']);
    }
    lemma_closed_body_block(body, seq![close] + lines(rest));
}

/// Whether the front matter marks the note for publishing.
pub open spec fn is_published(fm: Option<Frontmatter>) -> bool {
    match fm {
        Some(f) => f.publish == Some(true),
        None => false,
    }
}

fn is_fence_line(l: &Vec<char>) -> (b: bool)
    ensures
        b == is_fence(l@),
{
    let t = trim_chars(l);
    let b = t.len() == 3 && t[0] == '-' && t[1] == '-' && t[2] == '-';
    assert(b == (t@ =~= seq!['-', '-', '-']));
    b
}

/// The YAML text between a note's opening `---` line and its closing one,
/// each line followed by a line feed; `None` when the first line is not
/// `---` or no later line closes the front matter.
pub fn frontmatter_block(md_content: &str) -> (r: Option<String>)
    ensures
        r matches Some(s) ==> frontmatter_text(md_content@) == Some(s@),
        r is None ==> frontmatter_text(md_content@) is None,
{
    let chars = chars_of(md_content);
    let ls = split_lines(&chars);
    let ghost lv = views_of(ls@);
    if ls.len() == 0 || !is_fence_line(&ls[0]) {
        return None;
    }
    assert(lv[0] == ls@[0]@);
    assert(frontmatter_text(md_content@) == closed_body(lv.drop_first()));
    let mut matter = String::new();
    let ghost body = lv.drop_first();
    let mut i: usize = 1;
    assert(lv.skip(1) =~= body);
    assert(Seq::<char>::empty() + seq!['-'] =~= seq!['-']);
    assert(prefixed(matter@, closed_body(lv.skip(1))) == closed_body(body)) by {
        match closed_body(body) {
            Some(b) => assert(matter@ + b =~= b),
            None => {},
        }
    }
    while i < ls.len()
        invariant
            1 <= i <= ls@.len(),
            lv == views_of(ls@),
            body == lv.drop_first(),
            frontmatter_text(md_content@) == closed_body(body),
            prefixed(matter@, closed_body(lv.skip(i as int))) == closed_body(body),
        decreases ls@.len() - i,
    {
        let ghost rest = lv.skip(i as int);
        assert(rest[0] == ls@[i as int]@);
        if is_fence_line(&ls[i]) {
            assert(closed_body(rest) == Some(Seq::<char>::empty()));
            assert(matter@ + Seq::<char>::empty() =~= matter@);
            return Some(matter);
        }
        let line = &ls[i];
        let mut k: usize = 0;
        let ghost start = matter@;
        while k < line.len()
            invariant
                0 <= k <= line@.len(),
                matter@ == start + line@.take(k as int),
            decreases line@.len() - k,
        {
            push_char(&mut matter, line[k]);
            assert(line@.take(k + 1) =~= line@.take(k as int).push(line@[k as int]));
            k = k + 1;
        }
        push_char(&mut matter, '\n');
        assert(line@.take(line@.len() as int) =~= line@);
        assert(rest.drop_first() =~= lv.skip(i + 1));
        assert(prefixed(matter@, closed_body(lv.skip(i + 1))) == prefixed(start, closed_body(rest)))
            by {
            match closed_body(lv.skip(i + 1)) {
                Some(b) => assert(matter@ + b =~= start + (line@ + seq!['\n'] + b)),
                None => {},
            }
        }
        i = i + 1;
    }
    assert(lv.skip(i as int) =~= Seq::<Seq<char>>::empty());
    None
}

/// Whether a note is marked for publishing: its front matter parsed and
/// holds `publish: true`.
pub fn check_file(frontmatter: Option<Frontmatter>) -> (b: bool)
    ensures
        b == is_published(frontmatter),
{
    match frontmatter {
        Some(f) => match f.publish {
            Some(p) => p,
            None => false,
        },
        None => false,
    }
}

} // verus!
