//! Standard base64 (RFC 4648, with `=` padding) and the data URIs built from it.

use vstd::prelude::*;
use crate::text::push_char;

verus! {

/// The 64 symbols, in order of their values.
pub open spec fn alphabet() -> Seq<char> {
    seq![
        'A', 'B', 'C', 'D', 'E', 'F', 'G', 'H', 'I', 'J', 'K', 'L', 'M', 'N', 'O', 'P', 'Q', 'R',
        'S', 'T', 'U', 'V', 'W', 'X', 'Y', 'Z', 'a', 'b', 'c', 'd', 'e', 'f', 'g', 'h', 'i', 'j',
        'k', 'l', 'm', 'n', 'o', 'p', 'q', 'r', 's', 't', 'u', 'v', 'w', 'x', 'y', 'z', '0', '1',
        '2', '3', '4', '5', '6', '7', '8', '9', '+', '/',
    ]
}

pub open spec fn sym(v: int) -> char {
    alphabet()[v]
}

/// Three bytes as four symbols of six bits each, most significant first.
pub open spec fn group_spec(a: int, b: int, c: int) -> Seq<char> {
    seq![sym(a / 4), sym((a % 4) * 16 + b / 16), sym((b % 16) * 4 + c / 64), sym(c % 64)]
}

/// The base64 text of `s`: whole groups of three bytes, then one or two last bytes padded
/// with `=` to four symbols.
pub open spec fn base64_spec(s: Seq<u8>) -> Seq<char>
    decreases s.len(),
{
    if s.len() == 0 {
        Seq::empty()
    } else if s.len() == 1 {
        let a = s[0] as int;
        seq![sym(a / 4), sym((a % 4) * 16), '=', '=']
    } else if s.len() == 2 {
        let a = s[0] as int;
        let b = s[1] as int;
        seq![sym(a / 4), sym((a % 4) * 16 + b / 16), sym((b % 16) * 4), '=']
    } else {
        group_spec(s[0] as int, s[1] as int, s[2] as int) + base64_spec(s.skip(3))
    }
}

fn symbol(table: &Vec<char>, v: u8) -> (r: char)
    requires
        table@ == alphabet(),
        v < 64,
    ensures
        r == sym(v as int),
{
    table[v as usize]
}

/// Appends the base64 text of `bytes` to `out`.
pub fn push_base64(out: &mut String, bytes: &[u8])
    ensures
        final(out)@ == old(out)@ + base64_spec(bytes@),
{
    let table: Vec<char> = vec![
        'A', 'B', 'C', 'D', 'E', 'F', 'G', 'H', 'I', 'J', 'K', 'L', 'M', 'N', 'O', 'P', 'Q', 'R',
        'S', 'T', 'U', 'V', 'W', 'X', 'Y', 'Z', 'a', 'b', 'c', 'd', 'e', 'f', 'g', 'h', 'i', 'j',
        'k', 'l', 'm', 'n', 'o', 'p', 'q', 'r', 's', 't', 'u', 'v', 'w', 'x', 'y', 'z', '0', '1',
        '2', '3', '4', '5', '6', '7', '8', '9', '+', '/',
    ];
    assert(table@ =~= alphabet());
    let n = bytes.len();
    let ghost start = out@;
    let mut i: usize = 0;
    assert(bytes@.skip(0) =~= bytes@);
    while n - i >= 3
        invariant
            n == bytes@.len(),
            i <= n,
            table@ == alphabet(),
            out@ + base64_spec(bytes@.skip(i as int)) == start + base64_spec(bytes@),
        decreases n - i,
    {
        let a = bytes[i];
        let b = bytes[i + 1];
        let c = bytes[i + 2];
        let ghost rest = bytes@.skip(i as int);
        assert(rest[0] == a && rest[1] == b && rest[2] == c);
        assert(rest.skip(3) =~= bytes@.skip(i + 3));
        let ghost before = out@;
        push_char(out, symbol(&table, a / 4));
        push_char(out, symbol(&table, (a % 4) * 16 + b / 16));
        push_char(out, symbol(&table, (b % 16) * 4 + c / 64));
        push_char(out, symbol(&table, c % 64));
        assert(out@ =~= before + group_spec(a as int, b as int, c as int));
        i = i + 3;
    }
    let ghost rest = bytes@.skip(i as int);
    let ghost before = out@;
    if n - i == 1 {
        let a = bytes[i];
        assert(rest[0] == a);
        push_char(out, symbol(&table, a / 4));
        push_char(out, symbol(&table, (a % 4) * 16));
        push_char(out, '=');
        push_char(out, '=');
        assert(out@ =~= before + base64_spec(rest));
    } else if n - i == 2 {
        let a = bytes[i];
        let b = bytes[i + 1];
        assert(rest[0] == a && rest[1] == b);
        push_char(out, symbol(&table, a / 4));
        push_char(out, symbol(&table, (a % 4) * 16 + b / 16));
        push_char(out, symbol(&table, (b % 16) * 4));
        push_char(out, '=');
        assert(out@ =~= before + base64_spec(rest));
    } else {
        assert(out@ =~= before + base64_spec(rest));
    }
}

} // verus!
