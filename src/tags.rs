//! Finder tag colours from the `com.apple.metadata:_kMDItemUserTags` extended attribute, which
//! the metadata index stores as a hex dump of a binary property list.

use vstd::prelude::*;
use vstd::string::StringExecFns;
use crate::text::{chars_of, push_char};

verus! {

/// `char::is_whitespace`: the Unicode `White_Space` characters.
pub open spec fn is_space_char(c: char) -> bool {
    ('\t' <= c && c <= '\r') || c == ' ' || c == '\u{85}' || c == '\u{a0}' || c == '\u{1680}' || (
    '\u{2000}' <= c && c <= '\u{200a}') || c == '\u{2028}' || c == '\u{2029}' || c == '\u{202f}'
        || c == '\u{205f}' || c == '\u{3000}'
}

fn is_space(c: char) -> (r: bool)
    ensures
        r == is_space_char(c),
{
    ('\t' <= c && c <= '\r') || c == ' ' || c == '\u{85}' || c == '\u{a0}' || c == '\u{1680}' || (
    '\u{2000}' <= c && c <= '\u{200a}') || c == '\u{2028}' || c == '\u{2029}' || c == '\u{202f}'
        || c == '\u{205f}' || c == '\u{3000}'
}

/// Everything before position `j` on its line is whitespace.
pub open spec fn blank_before(s: Seq<char>, j: int) -> bool {
    forall|k: int|
        0 <= k < j && !is_space_char(#[trigger] s[k]) ==> exists|m: int| k < m < j && s[m] == '\n'
}

/// Everything after position `j` on its line is whitespace.
pub open spec fn blank_after(s: Seq<char>, j: int) -> bool {
    forall|k: int|
        j < k < s.len() && !is_space_char(#[trigger] s[k]) ==> exists|m: int| j < m < k && s[m]
            == '\n'
}

/// The character at `j` survives cleaning: it is not a line break nor a space, and it is not
/// whitespace at the start or the end of its line.
pub open spec fn survives(s: Seq<char>, j: int) -> bool {
    &&& s[j] != '\n'
    &&& s[j] != ' '
    &&& !(is_space_char(s[j]) && (blank_before(s, j) || blank_after(s, j)))
}

/// The surviving characters among the first `n`, in order.
pub open spec fn cleaned_upto(s: Seq<char>, n: int) -> Seq<char>
    decreases n,
{
    if n <= 0 {
        Seq::empty()
    } else if survives(s, n - 1) {
        cleaned_upto(s, n - 1).push(s[n - 1])
    } else {
        cleaned_upto(s, n - 1)
    }
}

/// The hex dump with each line trimmed, the lines joined, and the spaces removed.
pub open spec fn clean_hex_spec(s: Seq<char>) -> Seq<char> {
    cleaned_upto(s, s.len() as int)
}

fn blank_before_at(s: &Vec<char>, j: usize) -> (r: bool)
    requires
        j <= s@.len(),
    ensures
        r == blank_before(s@, j as int),
{
    let mut k: usize = j;
    while k > 0 && s[k - 1] != '\n'
        invariant
            k <= j <= s@.len(),
            forall|m: int| k <= m < j ==> is_space_char(#[trigger] s@[m]),
            forall|m: int| k <= m < j ==> s@[m] != '\n',
        decreases k,
    {
        if !is_space(s[k - 1]) {
            assert(!blank_before(s@, j as int)) by {
                let kk = k - 1;
                assert(!is_space_char(s@[kk]));
                assert(!(exists|m: int| kk < m < j && s@[m] == '\n'));
            }
            return false;
        }
        k = k - 1;
    }
    assert forall|kk: int| 0 <= kk < j && !is_space_char(#[trigger] s@[kk]) implies exists|m: int|
        kk < m < j && s@[m] == '\n' by {
        assert(kk < k);
        assert(s@[k - 1] == '\n');
    }
    true
}

fn blank_after_at(s: &Vec<char>, j: usize) -> (r: bool)
    requires
        j < s@.len(),
    ensures
        r == blank_after(s@, j as int),
{
    let n = s.len();
    let mut k: usize = j + 1;
    while k < n && s[k] != '\n'
        invariant
            n == s@.len(),
            j < k <= n,
            forall|m: int| j < m < k ==> is_space_char(#[trigger] s@[m]),
            forall|m: int| j < m < k ==> s@[m] != '\n',
        decreases n - k,
    {
        if !is_space(s[k]) {
            assert(!blank_after(s@, j as int)) by {
                assert(!is_space_char(s@[k as int]));
                assert(!(exists|m: int| j < m < k && s@[m] == '\n'));
            }
            return false;
        }
        k = k + 1;
    }
    assert forall|kk: int| j < kk < s@.len() && !is_space_char(#[trigger] s@[kk]) implies exists|
        m: int,
    | j < m < kk && s@[m] == '\n' by {
        assert(kk > k);
        assert(s@[k as int] == '\n');
    }
    true
}

/// Trims each line of a hex dump, joins the lines and removes the spaces.
pub fn clean_hex(dump: &str) -> (r: String)
    ensures
        r@ == clean_hex_spec(dump@),
{
    let s = chars_of(dump);
    let mut out = String::new();
    let mut j: usize = 0;
    while j < s.len()
        invariant
            j <= s@.len(),
            out@ == cleaned_upto(s@, j as int),
        decreases s@.len() - j,
    {
        let c = s[j];
        if c != '\n' && c != ' ' && !(is_space(c) && (blank_before_at(&s, j) || blank_after_at(&s, j))) {
            push_char(&mut out, c);
        }
        j = j + 1;
    }
    out
}

pub open spec fn is_hex_char(c: char) -> bool {
    ('0' <= c && c <= '9') || ('a' <= c && c <= 'f') || ('A' <= c && c <= 'F')
}

pub open spec fn hex_value(c: char) -> int {
    if '0' <= c && c <= '9' {
        c as int - '0' as int
    } else if 'a' <= c && c <= 'f' {
        c as int - 'a' as int + 10
    } else {
        c as int - 'A' as int + 10
    }
}

/// The bytes that an even number of hex digits spell, two digits a byte, high nibble first;
/// none for anything else.
pub open spec fn hex_decode_spec(s: Seq<char>) -> Option<Seq<u8>> {
    if s.len() % 2 == 0 && forall|i: int| 0 <= i < s.len() ==> is_hex_char(#[trigger] s[i]) {
        Some(Seq::new((s.len() / 2) as nat, |i: int| (hex_value(s[2 * i]) * 16 + hex_value(s[2 * i + 1])) as u8))
    } else {
        None
    }
}

#[verifier::external_type_specification]
#[verifier::external_body]
pub struct ExFromHexError(hex::FromHexError);

/// Relies on `hex::decode`: an odd length or a byte that is not a hex digit is an error;
/// otherwise each pair of digits (either case) is one byte, high nibble first. A character
/// outside ASCII is never a hex digit.
#[verifier::external_body]
fn decode_hex(s: &str) -> (r: Result<Vec<u8>, hex::FromHexError>)
    ensures
        match hex_decode_spec(s@) {
            Some(b) => r matches Ok(v) && v@ == b,
            None => r is Err,
        },
{
    hex::decode(s)
}

/// The items of the array that `plist::Value::from_reader` reads from these bytes, each as its
/// text when it is a string; none when the bytes are not a property list whose top value is
/// an array.
pub uninterp spec fn plist_array_items(b: Seq<u8>) -> Option<Seq<Option<Seq<char>>>>;

pub open spec fn items_view(v: Seq<Option<String>>) -> Seq<Option<Seq<char>>> {
    Seq::new(
        v.len(),
        |i: int|
            match v[i] {
                Some(s) => Some(s@),
                None => None,
            },
    )
}

/// Relies on `plist::Value::from_reader`, which reads a property list of any encoding.
#[verifier::external_body]
fn read_plist_array(b: &[u8]) -> (r: Option<Vec<Option<String>>>)
    ensures
        match r {
            Some(v) => plist_array_items(b@) == Some(items_view(v@)),
            None => plist_array_items(b@) is None,
        },
{
    match plist::Value::from_reader(std::io::Cursor::new(b)) {
        Ok(plist::Value::Array(items)) => Some(
            items.into_iter().map(|item| match item {
                plist::Value::String(s) => Some(s),
                _ => None,
            }).collect(),
        ),
        _ => None,
    }
}

/// `char::is_alphabetic`: the Unicode `Alphabetic` property.
pub uninterp spec fn alphabetic(c: char) -> bool;

/// Relies on `char::is_alphabetic`.
#[verifier::external_body]
fn is_alphabetic(c: char) -> (r: bool)
    ensures
        r == alphabetic(c),
{
    c.is_alphabetic()
}

/// `str::to_lowercase`: the Unicode lower-case mapping of each character.
pub uninterp spec fn lowercase_of(s: Seq<char>) -> Seq<char>;

/// Relies on `str::to_lowercase`.
#[verifier::external_body]
fn to_lowercase(s: &str) -> (r: String)
    ensures
        r@ == lowercase_of(s@),
{
    s.to_lowercase()
}

/// The leading run of alphabetic characters.
pub open spec fn alphabetic_prefix(s: Seq<char>) -> Seq<char>
    decreases s.len(),
{
    if s.len() > 0 && alphabetic(s[0]) {
        seq![s[0]] + alphabetic_prefix(s.skip(1))
    } else {
        Seq::empty()
    }
}

/// The names of the Finder tag colours.
pub open spec fn is_tag_color(c: Seq<char>) -> bool {
    c == "red"@ || c == "orange"@ || c == "yellow"@ || c == "green"@ || c == "blue"@ || c
        == "purple"@ || c == "gray"@ || c == "grey"@
}

/// The colour that a tag names: its leading letters in lower case, when they are a colour.
pub open spec fn tag_color_spec(tag: Seq<char>) -> Option<Seq<char>> {
    let c = lowercase_of(alphabetic_prefix(tag));
    if is_tag_color(c) {
        Some(c)
    } else {
        None
    }
}

/// The colours of the items that are strings naming one, in order.
pub open spec fn colors_spec(items: Seq<Option<Seq<char>>>) -> Seq<Seq<char>>
    decreases items.len(),
{
    if items.len() == 0 {
        Seq::empty()
    } else {
        let rest = colors_spec(items.drop_last());
        match items.last() {
            Some(t) => match tag_color_spec(t) {
                Some(c) => rest.push(c),
                None => rest,
            },
            None => rest,
        }
    }
}

/// The tag colours stored in a hex dump: none when it is not hex or not a property list array.
pub open spec fn tags_spec(dump: Seq<char>) -> Seq<Seq<char>> {
    match hex_decode_spec(clean_hex_spec(dump)) {
        None => Seq::empty(),
        Some(b) => match plist_array_items(b) {
            None => Seq::empty(),
            Some(items) => colors_spec(items),
        },
    }
}

pub open spec fn strings_view(v: Seq<String>) -> Seq<Seq<char>> {
    Seq::new(v.len(), |i: int| v[i]@)
}

fn is_color(c: &String) -> (r: bool)
    ensures
        r == is_tag_color(c@),
{
    let colors = vec![
        String::from_str("red"),
        String::from_str("orange"),
        String::from_str("yellow"),
        String::from_str("green"),
        String::from_str("blue"),
        String::from_str("purple"),
        String::from_str("gray"),
        String::from_str("grey"),
    ];
    let mut i: usize = 0;
    while i < colors.len()
        invariant
            i <= colors@.len(),
            colors@.len() == 8,
            colors@[0]@ == "red"@,
            colors@[1]@ == "orange"@,
            colors@[2]@ == "yellow"@,
            colors@[3]@ == "green"@,
            colors@[4]@ == "blue"@,
            colors@[5]@ == "purple"@,
            colors@[6]@ == "gray"@,
            colors@[7]@ == "grey"@,
            forall|k: int| 0 <= k < i ==> colors@[k]@ != c@,
        decreases colors@.len() - i,
    {
        if *c == colors[i] {
            return true;
        }
        i = i + 1;
    }
    false
}

/// The colour that `tag` names, if any.
pub fn tag_color(tag: &str) -> (r: Option<String>)
    ensures
        match tag_color_spec(tag@) {
            Some(c) => r matches Some(s) && s@ == c,
            None => r is None,
        },
{
    let s = chars_of(tag);
    let mut prefix = String::new();
    let mut i: usize = 0;
    assert(s@.skip(0) =~= s@);
    assert(prefix@ + alphabetic_prefix(s@) =~= alphabetic_prefix(s@));
    while i < s.len() && is_alphabetic(s[i])
        invariant
            i <= s@.len(),
            prefix@ + alphabetic_prefix(s@.skip(i as int)) == alphabetic_prefix(s@),
        decreases s@.len() - i,
    {
        let ghost rest = s@.skip(i as int);
        assert(rest.skip(1) =~= s@.skip(i + 1));
        push_char(&mut prefix, s[i]);
        assert(prefix@ + alphabetic_prefix(s@.skip(i + 1)) =~= alphabetic_prefix(s@));
        i = i + 1;
    }
    assert(alphabetic_prefix(s@.skip(i as int)) =~= Seq::<char>::empty());
    assert(prefix@ =~= alphabetic_prefix(s@));
    let color = to_lowercase(prefix.as_str());
    if is_color(&color) {
        Some(color)
    } else {
        None
    }
}

/// The colours named by the string items, in order; other items are skipped.
pub fn tag_colors(items: &Vec<Option<String>>) -> (r: Vec<String>)
    ensures
        strings_view(r@) == colors_spec(items_view(items@)),
{
    let mut out: Vec<String> = Vec::new();
    let mut i: usize = 0;
    while i < items.len()
        invariant
            i <= items@.len(),
            strings_view(out@) == colors_spec(items_view(items@).take(i as int)),
        decreases items@.len() - i,
    {
        let ghost before = out@;
        let ghost v = items_view(items@);
        assert(v.take(i + 1).drop_last() =~= v.take(i as int));
        match &items[i] {
            Some(t) => {
                match tag_color(t.as_str()) {
                    Some(c) => {
                        out.push(c);
                        assert(strings_view(out@) =~= strings_view(before).push(c@));
                    },
                    None => {},
                }
            },
            None => {},
        }
        i = i + 1;
    }
    assert(items_view(items@).take(i as int) =~= items_view(items@));
    out
}

/// The tag colours recorded in the hex dump of the user-tags attribute; an attribute that is
/// not hex, or not a property list holding an array, has none.
pub fn parse_binary_plist_tags(hex_str: &str) -> (r: Vec<String>)
    ensures
        strings_view(r@) == tags_spec(hex_str@),
{
    let cleaned = clean_hex(hex_str);
    match decode_hex(cleaned.as_str()) {
        Err(_) => {
            let none: Vec<String> = Vec::new();
            assert(strings_view(none@) =~= Seq::<Seq<char>>::empty());
            none
        },
        Ok(bytes) => match read_plist_array(bytes.as_slice()) {
            None => {
                let none: Vec<String> = Vec::new();
                assert(strings_view(none@) =~= Seq::<Seq<char>>::empty());
                none
            },
            Some(items) => tag_colors(&items),
        },
    }
}

} // verus!
