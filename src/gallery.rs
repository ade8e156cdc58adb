//! The gallery listing: one entry per distinct visible file name, in the order in which the
//! index returns the records.

use vstd::prelude::*;
use vstd::string::StringExecFns;
use crate::models::ImageMetadata;
use crate::tags::{parse_binary_plist_tags, strings_view, tags_spec};
use crate::text::{chars_of, push_char};

verus! {

/// What the index holds for one file, as plain values.
pub struct GalleryRecord {
    pub filename: String,
    /// The recorded size, when it is an integer.
    pub size: Option<i64>,
    /// The modification time, already formatted.
    pub date: String,
    /// The hex dump of the user-tags attribute, when there is one.
    pub tags_hex: Option<String>,
}

/// The URL path under which a file is proxied; only spaces are escaped.
pub open spec fn proxy_url_spec(name: Seq<char>) -> Seq<char> {
    "/api/gallery/proxy-image/"@ + escape_spaces_spec(name)
}

pub open spec fn escape_spaces_spec(s: Seq<char>) -> Seq<char>
    decreases s.len(),
{
    if s.len() == 0 {
        Seq::empty()
    } else if s.last() == ' ' {
        escape_spaces_spec(s.drop_last()) + seq!['%', '2', '0']
    } else {
        escape_spaces_spec(s.drop_last()).push(s.last())
    }
}

/// Record `i` is listed: its name does not start with a dot and no earlier record has it.
pub open spec fn listed(records: Seq<GalleryRecord>, i: int) -> bool {
    &&& !(records[i].filename@.len() > 0 && records[i].filename@[0] == '.')
    &&& forall|j: int| 0 <= j < i ==> #[trigger] records[j].filename@ != records[i].filename@
}

/// The entry for a listed record: its name, proxy URL, size (0 when unknown), date and tags.
pub open spec fn entry_matches(e: ImageMetadata, r: GalleryRecord) -> bool {
    &&& e.name@ == r.filename@
    &&& e.path@ == proxy_url_spec(r.filename@)
    &&& e.size == (match r.size {
        Some(n) => n,
        None => 0,
    })
    &&& e.modified_date@ == r.date@
    &&& strings_view(e.tags@) == (match r.tags_hex {
        Some(h) => tags_spec(h@),
        None => Seq::empty(),
    })
    &&& e.dimensions is None
    &&& e.kind is None
}

/// The indices of the listed records among the first `n`, in order.
pub open spec fn listed_upto(records: Seq<GalleryRecord>, n: int) -> Seq<int>
    decreases n,
{
    if n <= 0 {
        Seq::empty()
    } else if listed(records, n - 1) {
        listed_upto(records, n - 1).push(n - 1)
    } else {
        listed_upto(records, n - 1)
    }
}

/// Replaces each space with `%20`.
pub fn escape_spaces(s: &str) -> (r: String)
    ensures
        r@ == escape_spaces_spec(s@),
{
    let c = chars_of(s);
    let mut out = String::new();
    let mut i: usize = 0;
    while i < c.len()
        invariant
            i <= c@.len(),
            c@ == s@,
            out@ == escape_spaces_spec(c@.take(i as int)),
        decreases c@.len() - i,
    {
        let ghost t = c@.take(i + 1);
        assert(t.drop_last() =~= c@.take(i as int));
        if c[i] == ' ' {
            push_char(&mut out, '%');
            push_char(&mut out, '2');
            push_char(&mut out, '0');
            assert(out@ =~= escape_spaces_spec(t));
        } else {
            push_char(&mut out, c[i]);
        }
        i = i + 1;
    }
    assert(c@.take(i as int) =~= c@);
    out
}

fn starts_with_dot(s: &str) -> (r: bool)
    ensures
        r == (s@.len() > 0 && s@[0] == '.'),
{
    let c = chars_of(s);
    c.len() > 0 && c[0] == '.'
}

fn entry_for(r: &GalleryRecord) -> (e: ImageMetadata)
    ensures
        entry_matches(e, *r),
{
    let mut url = String::from_str("/api/gallery/proxy-image/");
    let escaped = escape_spaces(r.filename.as_str());
    url.append(escaped.as_str());
    let tags = match &r.tags_hex {
        Some(h) => parse_binary_plist_tags(h.as_str()),
        None => {
            let none: Vec<String> = Vec::new();
            assert(strings_view(none@) =~= Seq::<Seq<char>>::empty());
            none
        },
    };
    ImageMetadata {
        name: r.filename.clone(),
        path: url,
        size: match r.size {
            Some(n) => n,
            None => 0,
        },
        modified_date: r.date.clone(),
        dimensions: None,
        kind: None,
        tags,
    }
}

/// The gallery entries for the index records, in order: hidden names (starting with a dot)
/// are skipped, and a name already listed is not listed again.
pub fn gallery_listing(records: &Vec<GalleryRecord>) -> (r: Vec<ImageMetadata>)
    ensures
        r@.len() == listed_upto(records@, records@.len() as int).len(),
        forall|k: int|
            0 <= k < r@.len() ==> entry_matches(
                #[trigger] r@[k],
                records@[listed_upto(records@, records@.len() as int)[k]],
            ),
{
    let mut out: Vec<ImageMetadata> = Vec::new();
    let mut seen: Vec<String> = Vec::new();
    let mut i: usize = 0;
    while i < records.len()
        invariant
            i <= records@.len(),
            out@.len() == listed_upto(records@, i as int).len(),
            forall|k: int|
                0 <= k < out@.len() ==> entry_matches(
                    #[trigger] out@[k],
                    records@[listed_upto(records@, i as int)[k]],
                ),
            forall|j: int|
                0 <= j < i && !(records@[j].filename@.len() > 0 && records@[j].filename@[0]
                    == '.') ==> exists|m: int| 0 <= m < seen@.len() && #[trigger] seen@[m]@
                    == records@[j].filename@,
            forall|m: int|
                #![trigger seen@[m]]
                0 <= m < seen@.len() ==> exists|j: int|
                    0 <= j < i && #[trigger] records@[j].filename@ == seen@[m]@,
        decreases records@.len() - i,
    {
        let r = &records[i];
        if !starts_with_dot(r.filename.as_str()) {
            let mut found = false;
            let mut m: usize = 0;
            while m < seen.len()
                invariant
                    m <= seen@.len(),
                    !found ==> forall|q: int| 0 <= q < m ==> seen@[q]@ != r.filename@,
                    found ==> exists|q: int| 0 <= q < seen@.len() && seen@[q]@ == r.filename@,
                decreases seen@.len() - m,
            {
                if seen[m] == r.filename {
                    found = true;
                }
                m = m + 1;
            }
            if found {
                proof {
                    let q = choose|q: int| 0 <= q < seen@.len() && seen@[q]@ == r.filename@;
                    let j = choose|j: int| 0 <= j < i && #[trigger] records@[j].filename@ == seen@[q]@;
                    assert(!listed(records@, i as int));
                }
            } else {
                proof {
                    assert forall|j: int| 0 <= j < i implies #[trigger] records@[j].filename@
                        != records@[i as int].filename@ by {
                        if records@[j].filename@ == records@[i as int].filename@ {
                            let q = choose|q: int| 0 <= q < seen@.len() && #[trigger] seen@[q]@
                                == records@[j].filename@;
                        }
                    }
                    assert(listed(records@, i as int));
                }
                let ghost before = out@;
                let ghost old_seen = seen@;
                out.push(entry_for(r));
                seen.push(r.filename.clone());
                proof {
                    assert forall|k: int| 0 <= k < out@.len() implies entry_matches(
                        #[trigger] out@[k],
                        records@[listed_upto(records@, i + 1)[k]],
                    ) by {
                        if k < before.len() {
                            assert(out@[k] == before[k]);
                        }
                    }
                    assert forall|m2: int|
                        #![trigger seen@[m2]]
                        0 <= m2 < seen@.len() implies exists|j: int|
                        0 <= j < i + 1 && #[trigger] records@[j].filename@ == seen@[m2]@ by {
                        if m2 == seen@.len() - 1 {
                            assert(records@[i as int].filename@ == seen@[m2]@);
                        }
                    }
                    assert forall|j: int|
                        0 <= j < i + 1 && !(records@[j].filename@.len() > 0
                            && records@[j].filename@[0] == '.') implies exists|m2: int|
                        0 <= m2 < seen@.len() && #[trigger] seen@[m2]@ == records@[j].filename@ by {
                        if j == i {
                            assert(seen@[seen@.len() - 1]@ == records@[j].filename@);
                        } else {
                            assert(exists|q: int| 0 <= q < old_seen.len() && #[trigger] old_seen[q]@
                                == records@[j].filename@);
                            let q = choose|q: int| 0 <= q < old_seen.len() && #[trigger] old_seen[q]@
                                == records@[j].filename@;
                            assert(seen@[q] == old_seen[q]);
                        }
                    }
                }
            }
        }
        i = i + 1;
    }
    out
}

} // verus!
