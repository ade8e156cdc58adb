//! The pure parts of the content search: the name searched for and the page of results.

use vstd::prelude::*;
use crate::mdls::to_string;
use crate::tags::strings_view;
use crate::text::{chars_of, push_char};
use vstd::utf8::{decode_utf8, valid_utf8};

verus! {

/// The text before the first `.` (all of it when there is none).
pub open spec fn base_name_spec(s: Seq<char>) -> Seq<char> {
    if exists|i: int| 0 <= i < s.len() && s[i] == '.' {
        s.take(choose|i: int| 0 <= i < s.len() && s[i] == '.' && forall|j: int| 0 <= j < i ==> s[j] != '.')
    } else {
        s
    }
}

/// The name without its extension, as searched for.
pub fn base_name(image_name: &str) -> (r: String)
    ensures
        r@ == base_name_spec(image_name@),
{
    let s = chars_of(image_name);
    let mut out = String::new();
    let mut i: usize = 0;
    while i < s.len() && s[i] != '.'
        invariant
            i <= s@.len(),
            out@ == s@.take(i as int),
            forall|j: int| 0 <= j < i ==> s@[j] != '.',
        decreases s@.len() - i,
    {
        push_char(&mut out, s[i]);
        assert(s@.take(i + 1) =~= s@.take(i as int).push(s@[i as int]));
        i = i + 1;
    }
    proof {
        if i < s@.len() {
            let k = choose|k: int| 0 <= k < s@.len() && s@[k] == '.' && forall|j: int| 0 <= j < k ==> s@[j] != '.';
            if k < i {
                assert(s@[k] != '.');
            } else if k > i {
                assert(s@[i as int] != '.');
            }
        } else {
            assert(s@.take(i as int) =~= s@);
        }
    }
    out
}

/// Which slice of `total` sorted results a page shows, and how many pages there are.
#[derive(Clone, Copy, Debug, PartialEq, Eq, Structural)]
pub struct PageWindow {
    pub total_pages: usize,
    pub start: usize,
    pub end: usize,
}

pub open spec fn min_int(a: int, b: int) -> int {
    if a <= b {
        a
    } else {
        b
    }
}

/// Page `page` (counted from 1) of `page_size` results: from `(page - 1) * page_size` up to
/// `page_size` results later, both cut to `total`; a page past the end is empty.
pub open spec fn page_window_spec(total: usize, page: usize, page_size: usize) -> PageWindow {
    let start = min_int((page - 1) * page_size, total as int);
    PageWindow {
        total_pages: ((total + page_size - 1) / page_size as int) as usize,
        start: start as usize,
        end: min_int(start + page_size, total as int) as usize,
    }
}

pub fn page_window(total: usize, page: usize, page_size: usize) -> (r: PageWindow)
    requires
        page >= 1,
        page_size >= 1,
    ensures
        r == page_window_spec(total, page, page_size),
        r.start <= r.end <= total,
{
    let q = total / page_size;
    let rem = total % page_size;
    assert(rem > 0 ==> q < usize::MAX) by (nonlinear_arith)
        requires
            q == total / page_size,
            rem == total % page_size,
            page_size >= 1,
            total <= usize::MAX,
    ;
    let total_pages = q + if rem > 0 {
        1
    } else {
        0
    };
    assert(total_pages == (total + page_size - 1) / page_size as int) by (nonlinear_arith)
        requires
            total_pages == total as int / page_size as int + if total % page_size > 0 {
                1int
            } else {
                0int
            },
            page_size >= 1,
    ;
    let start = if page - 1 > total / page_size {
        total
    } else {
        assert((page - 1) * page_size <= total) by (nonlinear_arith)
            requires
                page - 1 <= total / page_size,
                page_size >= 1,
        ;
        let s = (page - 1) * page_size;
        if s > total {
            total
        } else {
            s
        }
    };
    assert(start == min_int((page - 1) * page_size, total as int)) by (nonlinear_arith)
        requires
            page - 1 > total / page_size ==> start == total,
            page - 1 <= total / page_size ==> start == min_int((page - 1) * page_size, total as int),
            page_size >= 1,
    ;
    let end = if total - start < page_size {
        total
    } else {
        start + page_size
    };
    PageWindow { total_pages, start, end }
}

/// The fields of `b` between zero bytes (a buffer without one is a single field).
pub open spec fn nul_fields(b: Seq<u8>) -> Seq<Seq<u8>>
    decreases b.len(),
{
    if b.len() == 0 {
        seq![Seq::empty()]
    } else {
        let rest = nul_fields(b.drop_last());
        if b.last() == 0 {
            rest.push(Seq::empty())
        } else {
            rest.update(rest.len() - 1, rest.last().push(b.last()))
        }
    }
}

/// `p` is the text of a non-empty UTF-8 field among `fields`.
pub open spec fn found_in(fields: Seq<Seq<u8>>, p: Seq<char>) -> bool {
    exists|i: int|
        0 <= i < fields.len() && #[trigger] fields[i].len() > 0 && valid_utf8(fields[i])
            && decode_utf8(fields[i]) == p
}

/// `p` is the text of a non-empty UTF-8 field of the output.
pub open spec fn found_path(b: Seq<u8>, p: Seq<char>) -> bool {
    found_in(nul_fields(b), p)
}

proof fn lemma_nul_fields_nonempty(b: Seq<u8>)
    ensures
        nul_fields(b).len() >= 1,
    decreases b.len(),
{
    if b.len() > 0 {
        lemma_nul_fields_nonempty(b.drop_last());
    }
}

proof fn lemma_found_in_push(fields: Seq<Seq<u8>>, f: Seq<u8>, p: Seq<char>)
    ensures
        found_in(fields.push(f), p) <==> (found_in(fields, p) || (f.len() > 0 && valid_utf8(f)
            && decode_utf8(f) == p)),
{
    let g = fields.push(f);
    if found_in(g, p) {
        let i = choose|i: int|
            0 <= i < g.len() && #[trigger] g[i].len() > 0 && valid_utf8(g[i]) && decode_utf8(g[i]) == p;
        if i < fields.len() {
            assert(fields[i] == g[i]);
        }
    }
    if found_in(fields, p) {
        let i = choose|i: int|
            0 <= i < fields.len() && #[trigger] fields[i].len() > 0 && valid_utf8(fields[i])
                && decode_utf8(fields[i]) == p;
        assert(g[i] == fields[i]);
    }
    if f.len() > 0 && valid_utf8(f) && decode_utf8(f) == p {
        assert(g[fields.len() as int] == f);
    }
}

/// Code point order, which is the byte order of the UTF-8 text that `str`'s `Ord` uses.
pub open spec fn lex_lt(a: Seq<char>, b: Seq<char>) -> bool
    decreases a.len(),
{
    if a.len() == 0 {
        b.len() > 0
    } else if b.len() == 0 {
        false
    } else if a[0] != b[0] {
        a[0] < b[0]
    } else {
        lex_lt(a.skip(1), b.skip(1))
    }
}

pub proof fn lemma_lex_total(a: Seq<char>, b: Seq<char>)
    ensures
        a == b || lex_lt(a, b) || lex_lt(b, a),
        !(lex_lt(a, b) && lex_lt(b, a)),
        !lex_lt(a, a),
    decreases a.len(),
{
    if a.len() > 0 {
        lemma_lex_total(a.skip(1), a.skip(1));
    }
    if a.len() > 0 && b.len() > 0 {
        lemma_lex_total(a.skip(1), b.skip(1));
        if a[0] == b[0] && a.skip(1) == b.skip(1) {
            assert(a =~= seq![a[0]] + a.skip(1));
            assert(b =~= seq![b[0]] + b.skip(1));
        }
    } else if a.len() == 0 && b.len() == 0 {
        assert(a =~= b);
    }
}

pub proof fn lemma_lex_transitive(a: Seq<char>, b: Seq<char>, c: Seq<char>)
    requires
        lex_lt(a, b),
        lex_lt(b, c),
    ensures
        lex_lt(a, c),
    decreases a.len(),
{
    if a.len() > 0 && b.len() > 0 && c.len() > 0 && a[0] == b[0] && b[0] == c[0] {
        lemma_lex_transitive(a.skip(1), b.skip(1), c.skip(1));
    }
}

/// The sequence is in strictly increasing order, so each text appears once.
pub open spec fn strictly_sorted(s: Seq<Seq<char>>) -> bool {
    forall|i: int, j: int| 0 <= i < j < s.len() ==> lex_lt(#[trigger] s[i], #[trigger] s[j])
}

fn lex_less(a: &Vec<char>, b: &Vec<char>) -> (r: bool)
    ensures
        r == lex_lt(a@, b@),
{
    let mut i: usize = 0;
    assert(a@.skip(0) =~= a@ && b@.skip(0) =~= b@);
    while i < a.len() && i < b.len() && a[i] == b[i]
        invariant
            i <= a@.len(),
            i <= b@.len(),
            lex_lt(a@.skip(i as int), b@.skip(i as int)) == lex_lt(a@, b@),
        decreases a@.len() - i,
    {
        assert(a@.skip(i as int).skip(1) =~= a@.skip(i + 1));
        assert(b@.skip(i as int).skip(1) =~= b@.skip(i + 1));
        i = i + 1;
    }
    if i == a.len() {
        i < b.len()
    } else if i == b.len() {
        false
    } else {
        a[i] < b[i]
    }
}

fn same_chars(a: &Vec<char>, b: &Vec<char>) -> (r: bool)
    ensures
        r == (a@ == b@),
{
    if a.len() != b.len() {
        return false;
    }
    let mut i: usize = 0;
    while i < a.len()
        invariant
            a@.len() == b@.len(),
            i <= a@.len(),
            forall|k: int| 0 <= k < i ==> a@[k] == b@[k],
        decreases a@.len() - i,
    {
        if a[i] != b[i] {
            return false;
        }
        i = i + 1;
    }
    assert(a@ =~= b@);
    true
}

/// Relies on `String::from_utf8`: the text when the bytes are valid UTF-8.
#[verifier::external_body]
fn utf8_text(b: Vec<u8>) -> (r: Option<String>)
    ensures
        match r {
            Some(s) => valid_utf8(b@) && s@ == decode_utf8(b@),
            None => !valid_utf8(b@),
        },
{
    String::from_utf8(b).ok()
}

pub open spec fn texts(v: Seq<Vec<char>>) -> Seq<Seq<char>> {
    v.map_values(|x: Vec<char>| x@)
}

/// Puts `p` into the sorted set `sorted`, unless it is there.
fn insert_sorted(sorted: &mut Vec<Vec<char>>, p: Vec<char>)
    requires
        strictly_sorted(texts(old(sorted)@)),
    ensures
        strictly_sorted(texts(final(sorted)@)),
        forall|q: Seq<char>|
            #[trigger] texts(final(sorted)@).contains(q) <==> (texts(old(sorted)@).contains(q) || q == p@),
{
    let ghost old_view = texts(sorted@);
    let mut j: usize = 0;
    while j < sorted.len() && lex_less(&sorted[j], &p)
        invariant
            j <= sorted@.len(),
            old_view == texts(sorted@),
            forall|k: int| 0 <= k < j ==> lex_lt(#[trigger] old_view[k], p@),
        decreases sorted@.len() - j,
    {
        j = j + 1;
    }
    if j < sorted.len() && same_chars(&sorted[j], &p) {
        assert(old_view[j as int] == p@);
        return;
    }
    proof {
        if j < old_view.len() {
            lemma_lex_total(old_view[j as int], p@);
        }
    }
    let ghost pv = p@;
    sorted.insert(j, p);
    proof {
        let nv = texts(sorted@);
        assert(nv =~= old_view.insert(j as int, pv));
        assert forall|a: int, b: int| 0 <= a < b < nv.len() implies lex_lt(#[trigger] nv[a], #[trigger] nv[b]) by {
            if b < j {
                assert(nv[a] == old_view[a] && nv[b] == old_view[b]);
            } else if b == j {
                assert(nv[a] == old_view[a]);
            } else if a == j {
                assert(nv[b] == old_view[b - 1]);
                if b - 1 > j {
                    lemma_lex_transitive(pv, old_view[j as int], old_view[b - 1]);
                }
            } else if a < j {
                assert(nv[a] == old_view[a] && nv[b] == old_view[b - 1]);
                lemma_lex_transitive(old_view[a], pv, old_view[j as int]);
                if b - 1 > j {
                    lemma_lex_transitive(old_view[a], old_view[j as int], old_view[b - 1]);
                }
            } else {
                assert(nv[a] == old_view[a - 1] && nv[b] == old_view[b - 1]);
            }
        }
        assert forall|q: Seq<char>| nv.contains(q) <==> (old_view.contains(q) || q == pv) by {
            if nv.contains(q) {
                let k = choose|k: int| 0 <= k < nv.len() && nv[k] == q;
                if k < j {
                    assert(old_view[k] == q);
                } else if k > j {
                    assert(old_view[k - 1] == q);
                }
            }
            if old_view.contains(q) {
                let k = choose|k: int| 0 <= k < old_view.len() && old_view[k] == q;
                if k < j {
                    assert(nv[k] == q);
                } else {
                    assert(nv[k + 1] == q);
                }
            }
            if q == pv {
                assert(nv[j as int] == q);
            }
        }
    }
}

/// The paths that `mdfind -0` printed: the non-empty UTF-8 fields between zero bytes,
/// sorted, each once.
pub fn search_results(output: &[u8]) -> (r: Vec<String>)
    ensures
        strictly_sorted(strings_view(r@)),
        forall|p: Seq<char>| strings_view(r@).contains(p) <==> found_path(output@, p),
{
    let mut sorted: Vec<Vec<char>> = Vec::new();
    let mut field: Vec<u8> = Vec::new();
    let mut i: usize = 0;
    let n = output.len();
    assert(output@.take(0) =~= Seq::<u8>::empty());
    assert(nul_fields(Seq::<u8>::empty()).drop_last() =~= Seq::<Seq<u8>>::empty());
    while i < n
        invariant
            i <= n,
            n == output@.len(),
            nul_fields(output@.take(i as int)).len() >= 1,
            field@ == nul_fields(output@.take(i as int)).last(),
            strictly_sorted(texts(sorted@)),
            forall|p: Seq<char>|
                #[trigger] texts(sorted@).contains(p) <==> found_in(
                    nul_fields(output@.take(i as int)).drop_last(),
                    p,
                ),
        decreases n - i,
    {
        let ghost prev = output@.take(i as int);
        let ghost next = output@.take(i + 1);
        assert(next.drop_last() =~= prev);
        assert(next.last() == output@[i as int]);
        proof {
            lemma_nul_fields_nonempty(prev);
            lemma_nul_fields_nonempty(next);
        }
        if output[i] == 0 {
            let ghost fv = field@;
            let ghost done = nul_fields(prev).drop_last();
            assert(nul_fields(next).drop_last() =~= done.push(fv));
            let f = field;
            field = Vec::new();
            if f.len() > 0 {
                match utf8_text(f) {
                    Some(text) => insert_sorted(&mut sorted, chars_of(text.as_str())),
                    None => {},
                }
            }
            proof {
                assert forall|p: Seq<char>|
                    texts(sorted@).contains(p) <==> found_in(
                        nul_fields(next).drop_last(),
                        p,
                    ) by {
                    lemma_found_in_push(done, fv, p);
                }
            }
        } else {
            assert(nul_fields(next).drop_last() =~= nul_fields(prev).drop_last());
            field.push(output[i]);
        }
        i = i + 1;
    }
    assert(output@.take(n as int) =~= output@);
    let ghost fv = field@;
    let ghost done = nul_fields(output@).drop_last();
    assert(nul_fields(output@) =~= done.push(fv));
    if field.len() > 0 {
        match utf8_text(field) {
            Some(text) => insert_sorted(&mut sorted, chars_of(text.as_str())),
            None => {},
        }
    }
    proof {
        assert forall|p: Seq<char>|
            texts(sorted@).contains(p) <==> found_path(output@, p) by {
            lemma_found_in_push(done, fv, p);
        }
    }
    let mut out: Vec<String> = Vec::new();
    let mut k: usize = 0;
    while k < sorted.len()
        invariant
            k <= sorted@.len(),
            strings_view(out@) == texts(sorted@).take(k as int),
        decreases sorted@.len() - k,
    {
        let ghost before = out@;
        out.push(to_string(&sorted[k]));
        assert(strings_view(out@) =~= strings_view(before).push(sorted@[k as int]@));
        assert(texts(sorted@).take(k + 1) =~= texts(sorted@).take(k as int).push(sorted@[k as int]@));
        k = k + 1;
    }
    assert(texts(sorted@).take(k as int) =~= texts(sorted@));
    out
}

} // verus!
