//! ANSI terminal commands as characters, and the parse of the terminal's
//! answer to a cursor-position query.
use vstd::prelude::*;

verus! {

pub const ESC: char = '\u{1b}';

/// The character of decimal digit `d`.
pub open spec fn digit_char(d: int) -> char {
    seq!['0', '1', '2', '3', '4', '5', '6', '7', '8', '9'][d]
}

/// The decimal digits of `n`, without leading zeros.
pub open spec fn decimal(n: nat) -> Seq<char>
    decreases n,
{
    if n < 10 {
        seq![digit_char(n as int)]
    } else {
        decimal(n / 10).push(digit_char((n % 10) as int))
    }
}

/// The command that moves the terminal's cursor to zero-based column `x`,
/// line `y`: the terminal counts from 1, and takes the line first.
pub open spec fn set_pos_cmd(x: nat, y: nat) -> Seq<char> {
    seq![ESC, '['] + decimal(y + 1) + seq![';'] + decimal(x + 1) + seq!['H']
}

/// The command that clears the terminal.
pub open spec fn clear_cmd() -> Seq<char> {
    seq![ESC, '[', '2', 'J']
}

/// The device status report query, which the terminal answers with its
/// cursor position.
pub open spec fn get_pos_cmd() -> Seq<char> {
    seq![ESC, '[', '6', 'n']
}

/// The query for the terminal's size: the cursor sent as far as the
/// terminal lets it go, then a query for where it ended up.
pub open spec fn get_size_cmd() -> Seq<char> {
    set_pos_cmd(999, 999) + get_pos_cmd()
}

fn digit(d: u128) -> (r: char)
    requires
        d < 10,
    ensures
        r == digit_char(d as int),
{
    match d {
        0 => '0',
        1 => '1',
        2 => '2',
        3 => '3',
        4 => '4',
        5 => '5',
        6 => '6',
        7 => '7',
        8 => '8',
        _ => '9',
    }
}

/// Appends the decimal digits of `n`.
pub fn push_decimal(out: &mut Vec<char>, n: u128)
    ensures
        final(out)@ == old(out)@ + decimal(n as nat),
    decreases n,
{
    if n >= 10 {
        push_decimal(out, n / 10);
    }
    out.push(digit(n % 10));
    assert(out@ =~= old(out)@ + decimal(n as nat));
}

/// Appends the characters of a short literal.
pub fn push_all(out: &mut Vec<char>, s: &[char])
    ensures
        final(out)@ == old(out)@ + s@,
{
    let mut i: usize = 0;
    while i < s.len()
        invariant
            i <= s@.len(),
            out@ == old(out)@ + s@.subrange(0, i as int),
        decreases s@.len() - i,
    {
        out.push(s[i]);
        i = i + 1;
        assert(out@ =~= old(out)@ + s@.subrange(0, i as int));
    }
    assert(s@.subrange(0, s@.len() as int) =~= s@);
}

/// The command that clears the terminal.
pub fn clear() -> (r: Vec<char>)
    ensures
        r@ == clear_cmd(),
{
    let r = vec![ESC, '[', '2', 'J'];
    assert(r@ =~= clear_cmd());
    r
}

/// Appends the command that moves the terminal's cursor to zero-based
/// column `x`, line `y`.
pub fn push_set_pos(out: &mut Vec<char>, x: usize, y: usize)
    ensures
        final(out)@ == old(out)@ + set_pos_cmd(x as nat, y as nat),
{
    out.push(ESC);
    out.push('[');
    push_decimal(out, (y as u128) + 1);
    out.push(';');
    push_decimal(out, (x as u128) + 1);
    out.push('H');
    assert(out@ =~= old(out)@ + set_pos_cmd(x as nat, y as nat));
}

/// The command that moves the terminal's cursor to zero-based column `x`,
/// line `y`.
pub fn set_pos(x: usize, y: usize) -> (r: Vec<char>)
    ensures
        r@ == set_pos_cmd(x as nat, y as nat),
{
    let mut r: Vec<char> = Vec::new();
    push_set_pos(&mut r, x, y);
    assert(r@ =~= set_pos_cmd(x as nat, y as nat));
    r
}

/// Appends the query for the terminal's size to the output still to be sent.
pub fn execute_get_size(pending_content: &mut Vec<char>)
    ensures
        final(pending_content)@ == old(pending_content)@ + get_size_cmd(),
{
    push_set_pos(pending_content, 999, 999);
    execute_get_pos(pending_content);
    assert(pending_content@ =~= old(pending_content)@ + get_size_cmd());
}

/// Appends the query for the terminal's cursor position to the output still
/// to be sent.
pub fn execute_get_pos(pending_content: &mut Vec<char>)
    ensures
        final(pending_content)@ == old(pending_content)@ + get_pos_cmd(),
{
    push_all(pending_content, &[ESC, '[', '6', 'n']);
    assert(pending_content@ =~= old(pending_content)@ + get_pos_cmd());
}

/// The value of a string of ASCII decimal digits.
pub open spec fn digits_value(s: Seq<u8>) -> nat
    decreases s.len(),
{
    if s.len() == 0 {
        0
    } else {
        digits_value(s.drop_last()) * 10 + (s.last() - 48) as nat
    }
}

pub open spec fn all_digits(s: Seq<u8>) -> bool {
    forall|k: int| 0 <= k < s.len() ==> 48 <= #[trigger] s[k] <= 57
}

/// The number a field of the answer holds, as std's `usize` parse reads it:
/// an optional `+`, then at least one digit, and a value that fits.
pub open spec fn field_value(s: Seq<u8>) -> Option<nat> {
    let d = if s.len() > 0 && s[0] == 43 {
        s.drop_first()
    } else {
        s
    };
    if d.len() > 0 && all_digits(d) && digits_value(d) <= usize::MAX {
        Some(digits_value(d))
    } else {
        None
    }
}

/// The first offset at or after `i` that holds `b`, or the length.
pub open spec fn find_byte(s: Seq<u8>, i: int, b: u8) -> int
    decreases s.len() - i,
{
    if i >= s.len() {
        s.len() as int
    } else if s[i] == b {
        i
    } else {
        find_byte(s, i + 1, b)
    }
}

/// A one-based coordinate as a zero-based one.
pub open spec fn zero_based(v: nat) -> nat {
    if v > 0 {
        (v - 1) as nat
    } else {
        0
    }
}

/// The (column, line) that the answer `ESC [ line ; column R` gives,
/// zero-based; `None` when the answer is not of that shape or a field is not
/// a number.
pub open spec fn pos_response(s: Seq<u8>) -> Option<(nat, nat)> {
    let semi = find_byte(s, 2, 59);
    let end = find_byte(s, semi + 1, 82);
    if s.len() >= 2 && s[0] == 27 && s[1] == 91 && semi < s.len() && end == s.len() - 1 {
        match (field_value(s.subrange(2, semi)), field_value(s.subrange(semi + 1, end))) {
            (Some(y), Some(x)) => Some((zero_based(x), zero_based(y))),
            _ => None,
        }
    } else {
        None
    }
}

/// Whether the bytes read so far hold a whole answer: after the first two,
/// a `;`, and an `R` after it.
pub open spec fn response_complete(s: Seq<u8>) -> bool {
    let semi = find_byte(s, 2, 59);
    s.len() >= 2 && semi < s.len() && find_byte(s, semi + 1, 82) < s.len()
}

pub proof fn lemma_find_byte_bound(s: Seq<u8>, i: int, b: u8)
    requires
        0 <= i,
    ensures
        i <= find_byte(s, i, b) || (i > s.len() && find_byte(s, i, b) == s.len()),
        find_byte(s, i, b) <= s.len() || i > s.len(),
        find_byte(s, i, b) < s.len() ==> s[find_byte(s, i, b)] == b,
        forall|k: int| i <= k < find_byte(s, i, b) ==> s[k] != b,
    decreases s.len() - i,
{
    if i < s.len() && s[i] != b {
        lemma_find_byte_bound(s, i + 1, b);
    }
}

/// The first offset at or after `i` that holds `b`, or the length.
fn find_byte_from(s: &[u8], i: usize, b: u8) -> (r: usize)
    requires
        i <= s@.len(),
    ensures
        r == find_byte(s@, i as int, b),
{
    let mut k = i;
    while k < s.len() && s[k] != b
        invariant
            i <= k <= s@.len(),
            find_byte(s@, i as int, b) == find_byte(s@, k as int, b),
        decreases s@.len() - k,
    {
        k = k + 1;
    }
    k
}

/// Whether the bytes read so far hold a whole answer to a position query.
pub fn size_response_complete(bytes: &[u8]) -> (r: bool)
    ensures
        r == response_complete(bytes@),
{
    if bytes.len() < 2 {
        return false;
    }
    let semi = find_byte_from(bytes, 2, 59);
    if semi >= bytes.len() {
        return false;
    }
    let end = find_byte_from(bytes, semi + 1, 82);
    end < bytes.len()
}

/// The number in `s[a..b)`, read as `field_value` says.
fn parse_field(s: &[u8], a: usize, b: usize) -> (r: Option<usize>)
    requires
        a <= b <= s@.len(),
    ensures
        match field_value(s@.subrange(a as int, b as int)) {
            Some(v) => r == Some(v as usize),
            None => r is None,
        },
{
    let ghost f = s@.subrange(a as int, b as int);
    let start = if a < b && s[a] == 43 {
        a + 1
    } else {
        a
    };
    let ghost d = s@.subrange(start as int, b as int);
    proof {
        if a < b && s[a as int] == 43 {
            assert(f.drop_first() =~= d);
        } else {
            assert(f =~= d);
        }
    }
    if start >= b {
        return None;
    }
    let mut v: usize = 0;
    let mut k = start;
    while k < b
        invariant
            start <= k <= b <= s@.len(),
            d == s@.subrange(start as int, b as int),
            field_value(s@.subrange(a as int, b as int)) == if all_digits(d) && digits_value(d)
                <= usize::MAX {
                Some(digits_value(d))
            } else {
                None
            },
            all_digits(s@.subrange(start as int, k as int)),
            v == digits_value(s@.subrange(start as int, k as int)),
        decreases b - k,
    {
        let c = s[k];
        let ghost pre = s@.subrange(start as int, k as int);
        let ghost next = s@.subrange(start as int, k + 1);
        assert(next.drop_last() =~= pre);
        if c < 48 || c > 57 {
            proof {
                assert(d[k - start] == c);
            }
            return None;
        }
        let dv = (c - 48) as usize;
        if v > (usize::MAX - dv) / 10 {
            proof {
                assert(v * 10 + dv > usize::MAX) by (nonlinear_arith)
                    requires
                        v > (usize::MAX - dv) / 10,
                        dv <= 9,
                ;
                if all_digits(d) {
                    assert(s@.subrange(start as int, k as int) =~= d.subrange(0, k - start));
                    assert(d[k - start] == c);
                    lemma_digits_prefix_bound(d, (k - start) as int);
                }
            }
            return None;
        }
        assert(v * 10 + dv <= usize::MAX) by (nonlinear_arith)
            requires
                v <= (usize::MAX - dv) / 10,
                dv <= 9,
        ;
        v = v * 10 + dv;
        k = k + 1;
        assert(all_digits(next)) by {
            assert forall|j: int| 0 <= j < next.len() implies 48 <= #[trigger] next[j] <= 57 by {
                if j < pre.len() {
                    assert(next[j] == pre[j]);
                }
            }
        }
    }
    assert(s@.subrange(start as int, k as int) =~= d);
    Some(v)
}

/// A longer string of digits is worth at least as much as its prefix one
/// digit longer: a prefix whose next step overflows makes the whole overflow.
proof fn lemma_digits_prefix_bound(d: Seq<u8>, k: int)
    requires
        0 <= k < d.len(),
        all_digits(d),
        digits_value(d.subrange(0, k)) * 10 + (d[k] - 48) > usize::MAX,
    ensures
        digits_value(d) > usize::MAX,
    decreases d.len() - k,
{
    if k + 1 == d.len() {
        assert(d.subrange(0, k + 1).drop_last() =~= d.subrange(0, k));
        assert(d.subrange(0, k + 1) =~= d);
    } else {
        let p = d.subrange(0, k + 1);
        assert(p.drop_last() =~= d.subrange(0, k));
        assert(d.subrange(0, k + 2).drop_last() =~= p);
        assert(d[k + 1] >= 48);
        assert(digits_value(d.subrange(0, k + 1)) * 10 + (d[k + 1] - 48) > usize::MAX) by (
        nonlinear_arith)
            requires
                digits_value(d.subrange(0, k + 1)) > usize::MAX,
                d[k + 1] >= 48,
        ;
        lemma_digits_prefix_bound(d, k + 1);
    }
}

/// Reads the terminal's answer to a position query, `ESC [ line ; column R`,
/// as a zero-based (column, line).
pub fn parse_size_response(bytes: &[u8]) -> (r: Option<(usize, usize)>)
    ensures
        match pos_response(bytes@) {
            Some(p) => r == Some((p.0 as usize, p.1 as usize)),
            None => r is None,
        },
{
    if bytes.len() < 2 || bytes[0] != 27 || bytes[1] != 91 {
        return None;
    }
    let semi = find_byte_from(bytes, 2, 59);
    proof {
        lemma_find_byte_bound(bytes@, 2, 59);
    }
    if semi >= bytes.len() {
        return None;
    }
    let end = find_byte_from(bytes, semi + 1, 82);
    proof {
        lemma_find_byte_bound(bytes@, semi + 1, 82);
    }
    if end != bytes.len() - 1 {
        return None;
    }
    let y = parse_field(bytes, 2, semi);
    let x = parse_field(bytes, semi + 1, end);
    match (y, x) {
        (Some(y), Some(x)) => {
            let x0 = if x > 0 {
                x - 1
            } else {
                0
            };
            let y0 = if y > 0 {
                y - 1
            } else {
                0
            };
            Some((x0, y0))
        },
        _ => None,
    }
}

} // verus!
