//! The `Range` request header: which bytes of a resource of known length to serve.

use vstd::prelude::*;
use crate::text::{
    all_digits, chars_of, decimal_of, lemma_decimal_of, lemma_parse_decimal, parse_u64_in,
    parse_u64_spec,
};

verus! {

/// An inclusive interval `[start, end]` of byte offsets; a parsed range satisfies
/// `start <= end < total_length`.
#[derive(Clone, Copy, Debug, PartialEq, Eq, Structural)]
pub struct ByteRange {
    pub start: u64,
    pub end: u64,
}

/// Why a `Range` header was refused; every one of them is a client error.
#[derive(Clone, Copy, Debug, PartialEq, Eq, Structural)]
pub enum RangeError {
    /// The value does not start with `bytes=`.
    MissingPrefix,
    /// No `-` follows the prefix.
    MissingSeparator,
    /// The text before the `-` is present and not a number.
    InvalidStart,
    /// The text after the `-` is present and not a number.
    InvalidEnd,
    /// The numbers do not describe bytes of the resource: `start > end` or `end >= total_length`.
    Unsatisfiable,
}

impl ByteRange {
    /// The range fits a resource of `total_length` bytes.
    pub open spec fn valid_for(self, total_length: u64) -> bool {
        self.start <= self.end && self.end < total_length
    }

    /// Number of bytes in the range.
    pub open spec fn spec_len(self) -> nat {
        (self.end - self.start + 1) as nat
    }

    pub fn len(&self) -> (r: u64)
        requires
            self.start <= self.end,
            self.end < u64::MAX,
        ensures
            r as nat == self.spec_len(),
    {
        self.end - self.start + 1
    }
}

impl RangeError {
    /// The message given to the client with the 400 status.
    pub fn message(&self) -> (r: &'static str)
        ensures
            (*self == RangeError::MissingPrefix || *self == RangeError::MissingSeparator) ==> r@
                == "Invalid range header format"@,
            *self == RangeError::InvalidStart ==> r@ == "Invalid range start"@,
            *self == RangeError::InvalidEnd ==> r@ == "Invalid range end"@,
            *self == RangeError::Unsatisfiable ==> r@ == "Invalid range"@,
    {
        match self {
            RangeError::MissingPrefix => "Invalid range header format",
            RangeError::MissingSeparator => "Invalid range header format",
            RangeError::InvalidStart => "Invalid range start",
            RangeError::InvalidEnd => "Invalid range end",
            RangeError::Unsatisfiable => "Invalid range",
        }
    }
}

pub open spec fn range_prefix() -> Seq<char> {
    seq!['b', 'y', 't', 'e', 's', '=']
}

pub open spec fn has_range_prefix(h: Seq<char>) -> bool {
    h.len() >= 6 && h.take(6) == range_prefix()
}

/// `i` is the position of the first `-` in `s`.
pub open spec fn first_dash(s: Seq<char>, i: int) -> bool {
    &&& 0 <= i < s.len()
    &&& s[i] == '-'
    &&& forall|j: int| 0 <= j < i ==> s[j] != '-'
}

/// Checks the two bounds once they are read.
pub open spec fn bounds_spec(start: u64, end: u64, total_length: u64) -> Result<ByteRange, RangeError> {
    if start > end || end >= total_length {
        Err(RangeError::Unsatisfiable)
    } else {
        Ok(ByteRange { start, end })
    }
}

/// Reads the two fields around the first `-`: an empty start is 0, an empty end is the last
/// byte of the resource (and there is none when the resource is empty).
pub open spec fn fields_spec(a: Seq<char>, b: Seq<char>, total_length: u64) -> Result<ByteRange, RangeError> {
    let start = if a.len() == 0 {
        Some(0u64)
    } else {
        parse_u64_spec(a)
    };
    if start is None {
        Err(RangeError::InvalidStart)
    } else if b.len() == 0 {
        if total_length == 0 {
            Err(RangeError::Unsatisfiable)
        } else {
            bounds_spec(start->0, (total_length - 1) as u64, total_length)
        }
    } else if parse_u64_spec(b) is None {
        Err(RangeError::InvalidEnd)
    } else {
        bounds_spec(start->0, parse_u64_spec(b)->0, total_length)
    }
}

/// The meaning of a raw `Range` header value `h` for a resource of `total_length` bytes.
pub open spec fn parse_range_spec(h: Seq<char>, total_length: u64) -> Result<ByteRange, RangeError> {
    if !has_range_prefix(h) {
        Err(RangeError::MissingPrefix)
    } else {
        let rest = h.skip(6);
        if !(exists|i: int| first_dash(rest, i)) {
            Err(RangeError::MissingSeparator)
        } else {
            let i = choose|i: int| first_dash(rest, i);
            fields_spec(rest.take(i), rest.skip(i + 1), total_length)
        }
    }
}

pub proof fn lemma_first_dash_unique(s: Seq<char>, i: int, j: int)
    requires
        first_dash(s, i),
        first_dash(s, j),
    ensures
        i == j,
{
    if i < j {
        assert(s[i] != '-');
    } else if j < i {
        assert(s[j] != '-');
    }
}

/// Parses a raw `Range` header value against a resource of `total_length` bytes.
pub fn parse_range(raw: &str, total_length: u64) -> (r: Result<ByteRange, RangeError>)
    ensures
        r == parse_range_spec(raw@, total_length),
        r matches Ok(range) ==> range.valid_for(total_length),
{
    let h = chars_of(raw);
    let n = h.len();
    if n < 6 || h[0] != 'b' || h[1] != 'y' || h[2] != 't' || h[3] != 'e' || h[4] != 's' || h[5]
        != '=' {
        proof {
            if n >= 6 {
                assert(h@.take(6)[0] == h@[0]);
                assert(h@.take(6)[1] == h@[1]);
                assert(h@.take(6)[2] == h@[2]);
                assert(h@.take(6)[3] == h@[3]);
                assert(h@.take(6)[4] == h@[4]);
                assert(h@.take(6)[5] == h@[5]);
            }
        }
        return Err(RangeError::MissingPrefix);
    }
    assert(h@.take(6) =~= range_prefix());
    let ghost rest = h@.skip(6);
    let mut dash: usize = 6;
    while dash < n && h[dash] != '-'
        invariant
            6 <= dash <= n,
            n == h@.len(),
            rest == h@.skip(6),
            forall|j: int| 0 <= j < dash - 6 ==> rest[j] != '-',
        decreases n - dash,
    {
        dash = dash + 1;
    }
    if dash == n {
        assert forall|i: int| !first_dash(rest, i) by {
            if 0 <= i < rest.len() {
                assert(rest[i] != '-');
            }
        }
        return Err(RangeError::MissingSeparator);
    }
    let ghost i = dash - 6;
    assert(first_dash(rest, i));
    proof {
        let k = choose|k: int| first_dash(rest, k);
        lemma_first_dash_unique(rest, i, k);
    }
    assert(rest.take(i) =~= h@.subrange(6, dash as int));
    assert(rest.skip(i + 1) =~= h@.subrange(dash + 1, n as int));
    let start: u64 = if dash == 6 {
        0
    } else {
        match parse_u64_in(&h, 6, dash) {
            Some(v) => v,
            None => {
                return Err(RangeError::InvalidStart);
            },
        }
    };
    let end: u64 = if dash + 1 == n {
        if total_length == 0 {
            return Err(RangeError::Unsatisfiable);
        }
        total_length - 1
    } else {
        match parse_u64_in(&h, dash + 1, n) {
            Some(v) => v,
            None => {
                return Err(RangeError::InvalidEnd);
            },
        }
    };
    if start > end || end >= total_length {
        return Err(RangeError::Unsatisfiable);
    }
    Ok(ByteRange { start, end })
}

/// The fields and the `-` between them, after the `bytes=` prefix.
proof fn lemma_split_at_dash(a: Seq<char>, b: Seq<char>, total_length: u64)
    requires
        forall|j: int| 0 <= j < a.len() ==> a[j] != '-',
    ensures
        parse_range_spec(range_prefix() + a + seq!['-'] + b, total_length) == fields_spec(
            a,
            b,
            total_length,
        ),
{
    let h = range_prefix() + a + seq!['-'] + b;
    assert(h.take(6) =~= range_prefix());
    let rest = h.skip(6);
    assert(rest =~= a + seq!['-'] + b);
    let i = a.len() as int;
    assert(first_dash(rest, i)) by {
        assert forall|j: int| 0 <= j < i implies rest[j] != '-' by {
            assert(rest[j] == a[j]);
        }
    }
    let k = choose|k: int| first_dash(rest, k);
    lemma_first_dash_unique(rest, i, k);
    assert(rest.take(i) =~= a);
    assert(rest.skip(i + 1) =~= b);
}

proof fn lemma_decimal_has_no_dash(n: nat)
    ensures
        forall|j: int| 0 <= j < decimal_of(n).len() ==> decimal_of(n)[j] != '-',
{
    lemma_decimal_of(n);
    assert forall|j: int| 0 <= j < decimal_of(n).len() implies decimal_of(n)[j] != '-' by {
        assert(all_digits(decimal_of(n)));
        assert(crate::text::is_digit(decimal_of(n)[j]));
    }
}

/// `bytes={start}-{end}` names exactly the bytes from `start` to `end` whenever they lie in
/// the resource.
pub proof fn lemma_parse_closed_range(start: u64, end: u64, total_length: u64)
    requires
        start <= end < total_length,
    ensures
        parse_range_spec(
            range_prefix() + decimal_of(start as nat) + seq!['-'] + decimal_of(end as nat),
            total_length,
        ) == Ok::<ByteRange, RangeError>(ByteRange { start, end }),
{
    lemma_decimal_has_no_dash(start as nat);
    lemma_decimal_of(start as nat);
    lemma_decimal_of(end as nat);
    lemma_parse_decimal(start);
    lemma_parse_decimal(end);
    lemma_split_at_dash(decimal_of(start as nat), decimal_of(end as nat), total_length);
}

/// `bytes=-{end}` is read with the start at 0 (not as a suffix length), so it names the
/// first `end + 1` bytes.
pub proof fn lemma_parse_open_start(end: u64, total_length: u64)
    requires
        end < total_length,
    ensures
        parse_range_spec(range_prefix() + seq!['-'] + decimal_of(end as nat), total_length)
            == Ok::<ByteRange, RangeError>(ByteRange { start: 0, end }),
{
    lemma_decimal_of(end as nat);
    lemma_parse_decimal(end);
    lemma_split_at_dash(Seq::<char>::empty(), decimal_of(end as nat), total_length);
    assert(range_prefix() + Seq::<char>::empty() =~= range_prefix());
}

/// `bytes={start}-` runs from `start` to the last byte of the resource.
pub proof fn lemma_parse_open_end(start: u64, total_length: u64)
    requires
        start < total_length,
    ensures
        parse_range_spec(range_prefix() + decimal_of(start as nat) + seq!['-'], total_length)
            == Ok::<ByteRange, RangeError>(ByteRange { start, end: (total_length - 1) as u64 }),
{
    lemma_decimal_has_no_dash(start as nat);
    lemma_decimal_of(start as nat);
    lemma_parse_decimal(start);
    lemma_split_at_dash(decimal_of(start as nat), Seq::<char>::empty(), total_length);
    assert(range_prefix() + decimal_of(start as nat) + seq!['-'] + Seq::<char>::empty()
        =~= range_prefix() + decimal_of(start as nat) + seq!['-']);
}

} // verus!
