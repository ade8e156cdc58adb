//! The user tags in the text that `mdls` prints for a file: the quoted names listed in the
//! parenthesised block that follows `kMDItemUserTags`.

use vstd::prelude::*;
use crate::tags::{is_space_char, strings_view};
use crate::text::{chars_of, push_char};

verus! {

/// The lines of `s`, split at each `\n` (a text without one is a single line).
pub open spec fn split_lines(s: Seq<char>) -> Seq<Seq<char>>
    decreases s.len(),
{
    if s.len() == 0 {
        seq![Seq::empty()]
    } else {
        let rest = split_lines(s.drop_last());
        if s.last() == '\n' {
            rest.push(Seq::empty())
        } else {
            rest.update(rest.len() - 1, rest.last().push(s.last()))
        }
    }
}

/// Characters that are trimmed: whitespace, or quotes and commas.
pub open spec fn trimmed_char(c: char, quotes: bool) -> bool {
    if quotes {
        c == '"' || c == ','
    } else {
        is_space_char(c)
    }
}

pub open spec fn trim_start_spec(t: Seq<char>, quotes: bool) -> Seq<char>
    decreases t.len(),
{
    if t.len() > 0 && trimmed_char(t[0], quotes) {
        trim_start_spec(t.skip(1), quotes)
    } else {
        t
    }
}

pub open spec fn trim_end_spec(t: Seq<char>, quotes: bool) -> Seq<char>
    decreases t.len(),
{
    if t.len() > 0 && trimmed_char(t.last(), quotes) {
        trim_end_spec(t.drop_last(), quotes)
    } else {
        t
    }
}

/// `str::trim` (whitespace) or `trim_matches` of quotes and commas.
pub open spec fn trim_spec(t: Seq<char>, quotes: bool) -> Seq<char> {
    trim_end_spec(trim_start_spec(t, quotes), quotes)
}

pub open spec fn tags_key() -> Seq<char> {
    "kMDItemUserTags"@
}

/// Where the scan of the lines stands.
#[derive(Clone, Copy, Debug, PartialEq, Eq, Structural)]
pub struct TagScan {
    /// A `kMDItemUserTags` line was seen.
    pub in_user_tags: bool,
    /// Its `(` was seen.
    pub in_block: bool,
    /// Its `)` was seen; nothing after it counts.
    pub finished: bool,
}

/// One trimmed line: the state after it and the tag that it holds, if any.
pub open spec fn scan_step(st: TagScan, t: Seq<char>) -> (TagScan, Option<Seq<char>>) {
    if t.len() >= tags_key().len() && t.take(tags_key().len() as int) == tags_key() {
        (
            TagScan {
                in_user_tags: true,
                in_block: st.in_block || t.contains('('),
                finished: false,
            },
            None,
        )
    } else if st.in_user_tags && !st.in_block && t.len() > 0 && t[0] == '(' {
        (TagScan { in_block: true, ..st }, None)
    } else if st.in_user_tags && st.in_block {
        if t == seq![')'] {
            (TagScan { finished: true, ..st }, None)
        } else if trim_spec(t, true).len() > 0 {
            (st, Some(trim_spec(t, true)))
        } else {
            (st, None)
        }
    } else {
        (st, None)
    }
}

pub open spec fn start_scan() -> TagScan {
    TagScan { in_user_tags: false, in_block: false, finished: false }
}

/// The state and the tags after the given lines, each trimmed of whitespace.
pub open spec fn scan_lines(lines: Seq<Seq<char>>) -> (TagScan, Seq<Seq<char>>)
    decreases lines.len(),
{
    if lines.len() == 0 {
        (start_scan(), Seq::empty())
    } else {
        let (st, tags) = scan_lines(lines.drop_last());
        if st.finished {
            (st, tags)
        } else {
            let (next, tag) = scan_step(st, trim_spec(lines.last(), false));
            match tag {
                Some(t) => (next, tags.push(t)),
                None => (next, tags),
            }
        }
    }
}

/// The user tags that `mdls` printed, in order.
pub open spec fn user_tags_spec(output: Seq<char>) -> Seq<Seq<char>> {
    scan_lines(split_lines(output)).1
}

fn trims(c: char, quotes: bool) -> (r: bool)
    ensures
        r == trimmed_char(c, quotes),
{
    if quotes {
        c == '"' || c == ','
    } else {
        ('\t' <= c && c <= '\r') || c == ' ' || c == '\u{85}' || c == '\u{a0}' || c == '\u{1680}'
            || ('\u{2000}' <= c && c <= '\u{200a}') || c == '\u{2028}' || c == '\u{2029}' || c
            == '\u{202f}' || c == '\u{205f}' || c == '\u{3000}'
    }
}

fn trim_chars(t: &Vec<char>, quotes: bool) -> (r: Vec<char>)
    ensures
        r@ == trim_spec(t@, quotes),
{
    let n = t.len();
    let mut a: usize = 0;
    assert(t@.skip(0) =~= t@);
    while a < n && trims(t[a], quotes)
        invariant
            n == t@.len(),
            a <= n,
            trim_start_spec(t@.skip(a as int), quotes) == trim_start_spec(t@, quotes),
        decreases n - a,
    {
        assert(t@.skip(a as int).skip(1) =~= t@.skip(a + 1));
        a = a + 1;
    }
    let ghost s = t@.skip(a as int);
    assert(trim_start_spec(s, quotes) == s);
    let mut b: usize = n;
    assert(s.take(s.len() as int) =~= s);
    while b > a && trims(t[b - 1], quotes)
        invariant
            n == t@.len(),
            a <= b <= n,
            s == t@.skip(a as int),
            trim_end_spec(s.take(b - a), quotes) == trim_end_spec(s, quotes),
        decreases b,
    {
        assert(s.take(b - a).drop_last() =~= s.take(b - 1 - a));
        assert(s.take(b - a).last() == t@[b - 1]);
        b = b - 1;
    }
    let mut out: Vec<char> = Vec::new();
    let mut i: usize = a;
    while i < b
        invariant
            a <= i <= b <= n,
            n == t@.len(),
            out@ == t@.subrange(a as int, i as int),
        decreases b - i,
    {
        out.push(t[i]);
        assert(t@.subrange(a as int, i + 1) =~= t@.subrange(a as int, i as int).push(t@[i as int]));
        i = i + 1;
    }
    assert(out@ =~= s.take(b - a));
    out
}

fn starts_with_key(t: &Vec<char>) -> (r: bool)
    ensures
        r == (t@.len() >= tags_key().len() && t@.take(tags_key().len() as int) == tags_key()),
{
    let key = chars_of("kMDItemUserTags");
    if t.len() < key.len() {
        return false;
    }
    let mut i: usize = 0;
    while i < key.len()
        invariant
            i <= key@.len() <= t@.len(),
            key@ == tags_key(),
            forall|k: int| 0 <= k < i ==> t@[k] == key@[k],
        decreases key@.len() - i,
    {
        if t[i] != key[i] {
            assert(t@.take(key@.len() as int)[i as int] != key@[i as int]);
            return false;
        }
        i = i + 1;
    }
    assert(t@.take(key@.len() as int) =~= key@);
    true
}

fn has_open_paren(t: &Vec<char>) -> (r: bool)
    ensures
        r == t@.contains('('),
{
    let mut i: usize = 0;
    while i < t.len()
        invariant
            i <= t@.len(),
            forall|k: int| 0 <= k < i ==> t@[k] != '(',
        decreases t@.len() - i,
    {
        if t[i] == '(' {
            return true;
        }
        i = i + 1;
    }
    false
}

pub(crate) fn to_string(t: &Vec<char>) -> (r: String)
    ensures
        r@ == t@,
{
    let mut s = String::new();
    let mut i: usize = 0;
    while i < t.len()
        invariant
            i <= t@.len(),
            s@ == t@.take(i as int),
        decreases t@.len() - i,
    {
        push_char(&mut s, t[i]);
        assert(t@.take(i + 1) =~= t@.take(i as int).push(t@[i as int]));
        i = i + 1;
    }
    assert(t@.take(i as int) =~= t@);
    s
}

fn step(st: TagScan, line: &Vec<char>, tags: &mut Vec<String>) -> (next: TagScan)
    ensures
        next == scan_step(st, trim_spec(line@, false)).0,
        match scan_step(st, trim_spec(line@, false)).1 {
            Some(t) => strings_view(final(tags)@) == strings_view(old(tags)@).push(t),
            None => final(tags)@ == old(tags)@,
        },
{
    let t = trim_chars(line, false);
    if starts_with_key(&t) {
        TagScan { in_user_tags: true, in_block: st.in_block || has_open_paren(&t), finished: false }
    } else if st.in_user_tags && !st.in_block && t.len() > 0 && t[0] == '(' {
        TagScan { in_block: true, ..st }
    } else if st.in_user_tags && st.in_block {
        if t.len() == 1 && t[0] == ')' {
            assert(t@ =~= seq![')']);
            TagScan { finished: true, ..st }
        } else {
            assert(t@ != seq![')']);
            let tag = trim_chars(&t, true);
            if tag.len() > 0 {
                let ghost before = tags@;
                tags.push(to_string(&tag));
                assert(strings_view(tags@) =~= strings_view(before).push(tag@));
            }
            st
        }
    } else {
        st
    }
}

proof fn lemma_split_lines_nonempty(s: Seq<char>)
    ensures
        split_lines(s).len() >= 1,
    decreases s.len(),
{
    if s.len() > 0 {
        lemma_split_lines_nonempty(s.drop_last());
    }
}

/// The user tags listed in the output of `mdls`, in order.
pub fn user_tags(output: &str) -> (r: Vec<String>)
    ensures
        strings_view(r@) == user_tags_spec(output@),
{
    let s = chars_of(output);
    let mut tags: Vec<String> = Vec::new();
    let mut st = start_scan_state();
    let mut line: Vec<char> = Vec::new();
    let mut i: usize = 0;
    assert(s@.take(0) =~= Seq::<char>::empty());
    assert(split_lines(Seq::<char>::empty()).drop_last() =~= Seq::<Seq<char>>::empty());
    assert(strings_view(tags@) =~= Seq::<Seq<char>>::empty());
    while i < s.len()
        invariant
            i <= s@.len(),
            split_lines(s@.take(i as int)).len() >= 1,
            line@ == split_lines(s@.take(i as int)).last(),
            (st, strings_view(tags@)) == scan_lines(split_lines(s@.take(i as int)).drop_last()),
        decreases s@.len() - i,
    {
        let ghost prev = s@.take(i as int);
        let ghost next = s@.take(i + 1);
        assert(next.drop_last() =~= prev);
        assert(next.last() == s@[i as int]);
        proof {
            lemma_split_lines_nonempty(prev);
        }
        if s[i] == '\n' {
            let ghost lines = split_lines(prev);
            assert(split_lines(next).drop_last() =~= lines);
            assert(lines.drop_last() =~= split_lines(prev).drop_last());
            if !st.finished {
                st = step(st, &line, &mut tags);
            }
            line = Vec::new();
        } else {
            let ghost lines = split_lines(prev);
            assert(split_lines(next).drop_last() =~= lines.drop_last());
            line.push(s[i]);
        }
        i = i + 1;
    }
    proof {
        lemma_split_lines_nonempty(s@.take(i as int));
    }
    assert(s@.take(i as int) =~= s@);
    if !st.finished {
        st = step(st, &line, &mut tags);
    }
    let ghost all = split_lines(s@);
    assert(all.drop_last().push(all.last()) =~= all);
    tags
}

fn start_scan_state() -> (r: TagScan)
    ensures
        r == start_scan(),
{
    TagScan { in_user_tags: false, in_block: false, finished: false }
}

} // verus!
