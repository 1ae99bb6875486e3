//! IP address text check (IPv4 dotted quad, IPv6 with `::` compression and an
//! embedded IPv4 tail), as Rust's `IpAddr` text parser accepts it.

use vstd::prelude::*;

use crate::compile::{all_digits, digits_value};
use crate::ext::str_chars;
use crate::semantic::{find_char, lemma_find_char};
use crate::text::{is_ascii_digit, chars_slice};

verus! {

/// The parts of `s` between the separators `sep` (one more part than separators).
pub open spec fn split_on(s: Seq<char>, sep: char) -> Seq<Seq<char>>
    decreases s.len(),
{
    match find_char(s, sep) {
        None => seq![s],
        Some(i) => if 0 <= i < s.len() {
            seq![s.subrange(0, i)] + split_on(s.subrange(i + 1, s.len() as int), sep)
        } else {
            seq![s]
        },
    }
}

/// An IPv4 octet: one to three digits, no leading zero but in `0`, at most 255.
pub open spec fn octet_text(p: Seq<char>) -> bool {
    &&& 1 <= p.len() <= 3
    &&& all_digits(p)
    &&& p.len() == 1 || p[0] != '0'
    &&& digits_value(p) <= 255
}

/// A dotted-quad IPv4 address.
pub open spec fn ipv4_text(s: Seq<char>) -> bool {
    let parts = split_on(s, '.');
    parts.len() == 4 && forall|i: int| 0 <= i < 4 ==> octet_text(#[trigger] parts[i])
}

/// A hexadecimal digit.
pub open spec fn is_hex(c: char) -> bool {
    is_ascii_digit(c) || ('a' <= c <= 'f') || ('A' <= c <= 'F')
}

/// An IPv6 group: one to four hex digits.
pub open spec fn h16_text(p: Seq<char>) -> bool {
    1 <= p.len() <= 4 && forall|i: int| 0 <= i < p.len() ==> is_hex(#[trigger] p[i])
}

/// Part `k` of an IPv6 text is a group; the last part may instead be an IPv4 address.
pub open spec fn group_ok(parts: Seq<Seq<char>>, k: int) -> bool {
    h16_text(parts[k]) || (k == parts.len() - 1 && ipv4_text(parts[k]))
}

/// The 16-bit groups the first `n` parts stand for: an empty part none, an IPv4 tail two,
/// any other part one.
pub open spec fn weight(parts: Seq<Seq<char>>, n: int) -> nat
    decreases n,
{
    if n <= 0 {
        0
    } else {
        weight(parts, n - 1) + if parts[n - 1].len() == 0 {
            0nat
        } else if n - 1 == parts.len() - 1 && ipv4_text(parts[n - 1]) {
            2nat
        } else {
            1nat
        }
    }
}

/// Every part other than parts `a` and `b` is a non-empty group.
pub open spec fn parts_ok_except(parts: Seq<Seq<char>>, a: int, b: int) -> bool {
    forall|k: int| 0 <= k < parts.len() && k != a && k != b ==> (#[trigger] parts[k]).len() > 0 && group_ok(parts, k)
}

/// An IPv6 address: eight groups, or fewer with one `::` (at the start, at the end or
/// inside) standing for at least one zero group.
pub open spec fn ipv6_text(s: Seq<char>) -> bool {
    let parts = split_on(s, ':');
    let n = parts.len() as int;
    let w = weight(parts, n);
    ||| parts_ok_except(parts, n, n) && w == 8
    ||| s == "::"@
    ||| n >= 3 && parts[0].len() == 0 && parts[1].len() == 0 && parts_ok_except(parts, 0, 1) && w <= 7
    ||| n >= 3 && parts[n - 2].len() == 0 && parts[n - 1].len() == 0 && parts_ok_except(parts, n - 2, n - 1) && w <= 7
    ||| exists|j: int| 0 < j < n - 1 && (#[trigger] parts[j]).len() == 0 && parts_ok_except(parts, j, j) && w <= 7
}

/// An IPv4 or IPv6 address text.
pub open spec fn ip_text(s: Seq<char>) -> bool {
    ipv4_text(s) || ipv6_text(s)
}

/// The characters of each part.
pub open spec fn parts_view(v: Seq<Vec<char>>) -> Seq<Seq<char>> {
    v.map_values(|x: Vec<char>| x@)
}

/// Splits `v[from..]` at each `sep`.
fn split_from(v: &Vec<char>, sep: char, from: usize) -> (r: Vec<Vec<char>>)
    requires
        from <= v.len(),
    ensures
        parts_view(r@) == split_on(v@.subrange(from as int, v.len() as int), sep),
    decreases v.len() - from,
{
    let ghost s = v@.subrange(from as int, v.len() as int);
    proof { lemma_find_char(s, sep); }
    let mut i: usize = from;
    while i < v.len() && v[i] != sep
        invariant
            from <= i <= v.len(),
            s == v@.subrange(from as int, v.len() as int),
            forall|k: int| from <= k < i ==> v@[k] != sep,
        decreases v.len() - i,
    {
        i = i + 1;
    }
    if i == v.len() {
        proof {
            if let Some(x) = find_char(s, sep) {
                assert(s[x] == v@[from + x]);
            }
        }
        let mut out: Vec<Vec<char>> = Vec::new();
        out.push(chars_slice(v, from, v.len()));
        assert(parts_view(out@) =~= seq![s]);
        out
    } else {
        proof {
            let x = find_char(s, sep);
            assert(s[i - from] == sep);
            assert(x == Some((i - from) as int)) by {
                let y = x->Some_0;
                if y < i - from {
                    assert(s[y] == v@[from + y]);
                }
            }
            assert(s.subrange(0, i - from) =~= v@.subrange(from as int, i as int));
            assert(s.subrange(i - from + 1, s.len() as int) =~= v@.subrange(i + 1, v.len() as int));
        }
        let head = chars_slice(v, from, i);
        let rest = split_from(v, sep, i + 1);
        let mut out: Vec<Vec<char>> = Vec::new();
        out.push(head);
        let mut k: usize = 0;
        while k < rest.len()
            invariant
                k <= rest.len(),
                out@.len() == k + 1,
                out@[0]@ == v@.subrange(from as int, i as int),
                forall|x: int| 1 <= x <= k ==> (#[trigger] out@[x])@ == rest@[x - 1]@,
            decreases rest.len() - k,
        {
            out.push(rest[k].clone());
            k = k + 1;
        }
        assert(parts_view(out@) =~= seq![v@.subrange(from as int, i as int)] + parts_view(rest@));
        out
    }
}

fn is_digit(c: char) -> (r: bool)
    ensures
        r == is_ascii_digit(c),
{
    '0' <= c && c <= '9'
}

/// Whether `p` is an IPv4 octet.
fn is_octet(p: &Vec<char>) -> (r: bool)
    ensures
        r == octet_text(p@),
{
    if p.len() < 1 || p.len() > 3 {
        return false;
    }
    let mut i: usize = 0;
    let mut value: u32 = 0;
    while i < p.len()
        invariant
            1 <= p.len() <= 3,
            i <= p.len(),
            all_digits(p@.subrange(0, i as int)),
            value as nat == digits_value(p@.subrange(0, i as int)),
            value < 1000,
        decreases p.len() - i,
    {
        if !is_digit(p[i]) {
            assert(!all_digits(p@)) by {
                assert(!is_ascii_digit(p@[i as int]));
            }
            return false;
        }
        proof {
            let t = p@.subrange(0, i + 1);
            assert(t.drop_last() =~= p@.subrange(0, i as int));
            if i > 0 {
                assert(value < 100) by {
                    assert(value as nat == digits_value(p@.subrange(0, i as int)));
                    lemma_small_digits(p@.subrange(0, i as int));
                }
            }
        }
        value = value * 10 + (p[i] as u32 - 48);
        i = i + 1;
    }
    assert(p@.subrange(0, p.len() as int) =~= p@);
    (p.len() == 1 || p[0] != '0') && value <= 255
}

/// A string of at most two digits is worth less than 100.
proof fn lemma_small_digits(s: Seq<char>)
    requires
        s.len() <= 2,
        all_digits(s),
    ensures
        s.len() <= 1 ==> digits_value(s) < 10,
        digits_value(s) < 100,
    decreases s.len(),
{
    if s.len() > 0 {
        lemma_small_digits(s.drop_last());
        assert(is_ascii_digit(s[s.len() - 1]));
    }
}

/// Whether `v` is a dotted-quad IPv4 address.
fn is_ipv4(v: &Vec<char>) -> (r: bool)
    ensures
        r == ipv4_text(v@),
{
    assert(v@.subrange(0, v.len() as int) =~= v@);
    let parts = split_from(v, '.', 0);
    if parts.len() != 4 {
        return false;
    }
    let mut i: usize = 0;
    while i < 4
        invariant
            i <= 4,
            parts@.len() == 4,
            parts_view(parts@) == split_on(v@, '.'),
            forall|k: int| 0 <= k < i ==> octet_text(#[trigger] split_on(v@, '.')[k]),
        decreases 4 - i,
    {
        assert(split_on(v@, '.')[i as int] == parts@[i as int]@);
        if !is_octet(&parts[i]) {
            return false;
        }
        i = i + 1;
    }
    true
}

fn is_hex_char(c: char) -> (r: bool)
    ensures
        r == is_hex(c),
{
    ('0' <= c && c <= '9') || ('a' <= c && c <= 'f') || ('A' <= c && c <= 'F')
}

/// Whether `p` is an IPv6 group.
fn is_h16(p: &Vec<char>) -> (r: bool)
    ensures
        r == h16_text(p@),
{
    if p.len() < 1 || p.len() > 4 {
        return false;
    }
    let mut i: usize = 0;
    while i < p.len()
        invariant
            i <= p.len(),
            forall|k: int| 0 <= k < i ==> is_hex(#[trigger] p@[k]),
        decreases p.len() - i,
    {
        if !is_hex_char(p[i]) {
            return false;
        }
        i = i + 1;
    }
    true
}

/// `w`, or `usize::MAX` when it is larger.
pub open spec fn capped(w: nat) -> nat {
    if w > usize::MAX { usize::MAX as nat } else { w }
}

/// Whether every part other than `a` and `b` is a non-empty group, and the total weight
/// (capped at `usize::MAX`).
fn check_parts(parts: &Vec<Vec<char>>, a: usize, b: usize) -> (r: (bool, usize))
    ensures
        r.0 == parts_ok_except(parts_view(parts@), a as int, b as int),
        r.1 as nat == capped(weight(parts_view(parts@), parts@.len() as int)),
{
    let ghost pv = parts_view(parts@);
    let n = parts.len();
    let mut ok = true;
    let mut w: usize = 0;
    let mut k: usize = 0;
    while k < n
        invariant
            n == parts@.len(),
            pv == parts_view(parts@),
            k <= n,
            ok == forall|x: int| 0 <= x < k && x != a && x != b ==> (#[trigger] pv[x]).len() > 0 && group_ok(pv, x),
            w as nat == capped(weight(pv, k as int)),
        decreases n - k,
    {
        let p = &parts[k];
        assert(pv[k as int] == p@);
        let four = k + 1 == n && is_ipv4(p);
        let good = is_h16(p) || four;
        if k != a && k != b && !(p.len() > 0 && good) {
            ok = false;
        }
        if p.len() > 0 {
            if four {
                w = w.saturating_add(2);
            } else {
                w = w.saturating_add(1);
            }
        }
        proof {
            if ok {
                assert forall|x: int| 0 <= x < k + 1 && x != a && x != b implies (#[trigger] pv[x]).len() > 0 && group_ok(pv, x) by {}
            }
        }
        k = k + 1;
    }
    (ok, w)
}

/// Whether `v` is an IPv6 address.
fn is_ipv6(v: &Vec<char>) -> (r: bool)
    ensures
        r == ipv6_text(v@),
{
    assert(v@.subrange(0, v.len() as int) =~= v@);
    let parts = split_from(v, ':', 0);
    let ghost pv = parts_view(parts@);
    let n = parts.len();
    proof { lemma_split_nonempty(v@, ':'); }
    let (all_ok, w) = check_parts(&parts, n, n);
    if all_ok && w == 8 {
        return true;
    }
    let is_double = v.len() == 2 && v[0] == ':' && v[1] == ':';
    proof {
        reveal_strlit("::");
        if is_double {
            assert(v@ =~= "::"@);
        }
    }
    if is_double {
        return true;
    }
    assert(v@ != "::"@);
    if n >= 3 && parts[0].len() == 0 && parts[1].len() == 0 {
        let (ok, _) = check_parts(&parts, 0, 1);
        assert(pv[0] == parts@[0]@ && pv[1] == parts@[1]@);
        if ok && w <= 7 {
            return true;
        }
    }
    if n >= 3 && parts[n - 2].len() == 0 && parts[n - 1].len() == 0 {
        let (ok, _) = check_parts(&parts, n - 2, n - 1);
        assert(pv[n - 2] == parts@[n - 2]@ && pv[n - 1] == parts@[n - 1]@);
        if ok && w <= 7 {
            return true;
        }
    }
    let mut j: usize = 1;
    while j < n - 1
        invariant
            1 <= j,
            n >= 1,
            n == parts@.len(),
            pv == parts_view(parts@),
            pv == split_on(v@, ':'),
            forall|x: int| 0 < x < j && x < n - 1 && (#[trigger] pv[x]).len() == 0 ==> !(parts_ok_except(pv, x, x) && w <= 7),
            w as nat == capped(weight(pv, n as int)),
        decreases n - j,
    {
        assert(pv[j as int] == parts@[j as int]@);
        if parts[j].len() == 0 {
            let (ok, _) = check_parts(&parts, j, j);
            if ok && w <= 7 {
                return true;
            }
        }
        j = j + 1;
    }
    proof {
        assert(!(n >= 3 && pv[0].len() == 0 && pv[1].len() == 0 && parts_ok_except(pv, 0, 1) && w <= 7));
    }
    false
}

/// A split has at least one part.
proof fn lemma_split_nonempty(s: Seq<char>, sep: char)
    ensures
        split_on(s, sep).len() >= 1,
    decreases s.len(),
{
    if let Some(i) = find_char(s, sep) {
        if 0 <= i < s.len() {
            lemma_split_nonempty(s.subrange(i + 1, s.len() as int), sep);
        }
    }
}

/// Checks an IP address text. A valid address is returned as written.
pub fn validate_ip(raw: &str) -> (r: Option<&str>)
    ensures
        ip_text(raw@) ==> r == Some(raw),
        !ip_text(raw@) ==> r is None,
{
    let v = str_chars(raw);
    if is_ipv4(&v) || is_ipv6(&v) {
        Some(raw)
    } else {
        None
    }
}

} // verus!
