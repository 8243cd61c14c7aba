//! IP address literals as `IpAddr::from_str` reads them: dotted-quad IPv4
//! with no leading zeros, and IPv6 with `::` compression and an optional
//! trailing IPv4 part; and whether such a literal names the loopback
//! address.
use vstd::prelude::*;
use crate::text::{digits_value, is_digit};

verus! {

pub open spec fn is_hex(c: char) -> bool {
    is_digit(c) || ('a' <= c && c <= 'f') || ('A' <= c && c <= 'F')
}

pub open spec fn hex_val(c: char) -> nat {
    if is_digit(c) {
        ((c as u32) - ('0' as u32)) as nat
    } else if 'a' <= c && c <= 'f' {
        ((c as u32) - ('a' as u32) + 10) as nat
    } else {
        ((c as u32) - ('A' as u32) + 10) as nat
    }
}

/// The number that the hexadecimal digits `d` spell.
pub open spec fn hex_value(d: Seq<char>) -> nat
    decreases d.len(),
{
    if d.len() == 0 {
        0
    } else {
        hex_value(d.drop_last()) * 16 + hex_val(d.last())
    }
}

/// How many decimal digits follow from `pos` on.
pub open spec fn dec_run(s: Seq<char>, pos: int) -> nat
    decreases s.len() - pos,
{
    if 0 <= pos < s.len() && is_digit(s[pos]) {
        1 + dec_run(s, pos + 1)
    } else {
        0
    }
}

/// How many hexadecimal digits follow from `pos` on.
pub open spec fn hex_run(s: Seq<char>, pos: int) -> nat
    decreases s.len() - pos,
{
    if 0 <= pos < s.len() && is_hex(s[pos]) {
        1 + hex_run(s, pos + 1)
    } else {
        0
    }
}

/// A decimal octet at `pos`: one to three digits, no leading zero, at most
/// 255; with the position after it.
pub open spec fn read_octet(s: Seq<char>, pos: int) -> Option<(nat, int)> {
    let n = dec_run(s, pos);
    if n == 0 || n > 3 || (n > 1 && s[pos] == '0') || digits_value(s.subrange(pos, pos + n)) > 255 {
        None
    } else {
        Some((digits_value(s.subrange(pos, pos + n)), pos + n))
    }
}

/// An IPv6 group at `pos`: one to four hexadecimal digits.
pub open spec fn read_hex_group(s: Seq<char>, pos: int) -> Option<(nat, int)> {
    let n = hex_run(s, pos);
    if n == 0 || n > 4 {
        None
    } else {
        Some((hex_value(s.subrange(pos, pos + n)), pos + n))
    }
}

/// The octets `i..4` of a dotted quad from `pos` on.
pub open spec fn read_dotted(s: Seq<char>, pos: int, i: nat) -> Option<(Seq<nat>, int)>
    decreases 4 - i,
{
    if i >= 4 {
        Some((seq![], pos))
    } else {
        let start = if i == 0 {
            Some(pos)
        } else if 0 <= pos < s.len() && s[pos] == '.' {
            Some(pos + 1)
        } else {
            None
        };
        match start {
            None => None,
            Some(st) => match read_octet(s, st) {
                None => None,
                Some((v, p)) => match read_dotted(s, p, i + 1) {
                    None => None,
                    Some((rest, q)) => Some((seq![v] + rest, q)),
                },
            },
        }
    }
}

/// The octets of `s` when all of it is an IPv4 literal.
pub open spec fn parse_ipv4(s: Seq<char>) -> Option<Seq<nat>> {
    match read_dotted(s, 0, 0) {
        Some((o, q)) => if q == s.len() {
            Some(o)
        } else {
            None
        },
        None => None,
    }
}

/// The IPv6 groups `i..limit` from `pos` on, each after a `:` but the
/// first; a dotted quad may stand for the last two. Gives the groups read,
/// the position after them, and whether a dotted quad ended them.
pub open spec fn read_groups(s: Seq<char>, pos: int, i: nat, limit: nat) -> (Seq<nat>, int, bool)
    decreases limit - i,
{
    if i >= limit {
        (seq![], pos, false)
    } else {
        let sep_ok = i == 0 || (0 <= pos < s.len() && s[pos] == ':');
        let st = if i == 0 {
            pos
        } else {
            pos + 1
        };
        let v4 = if i + 1 < limit && sep_ok {
            read_dotted(s, st, 0)
        } else {
            None
        };
        match v4 {
            Some((o, p)) => (seq![o[0] * 256 + o[1], o[2] * 256 + o[3]], p, true),
            None => if sep_ok {
                match read_hex_group(s, st) {
                    Some((g, p)) => {
                        let r = read_groups(s, p, i + 1, limit);
                        (seq![g] + r.0, r.1, r.2)
                    },
                    None => (seq![], pos, false),
                }
            } else {
                (seq![], pos, false)
            },
        }
    }
}

/// The eight groups of `s` when all of it is an IPv6 literal.
pub open spec fn parse_ipv6(s: Seq<char>) -> Option<Seq<nat>> {
    let h = read_groups(s, 0, 0, 8);
    if h.0.len() == 8 {
        if h.1 == s.len() {
            Some(h.0)
        } else {
            None
        }
    } else if h.2 {
        None
    } else if !(0 <= h.1 && h.1 + 1 < s.len() && s[h.1] == ':' && s[h.1 + 1] == ':') {
        None
    } else {
        let t = read_groups(s, h.1 + 2, 0, (7 - h.0.len()) as nat);
        if t.1 == s.len() {
            Some(h.0 + Seq::new((8 - h.0.len() - t.0.len()) as nat, |k: int| 0nat) + t.0)
        } else {
            None
        }
    }
}

pub open spec fn ipv6_loopback_groups() -> Seq<nat> {
    seq![0nat, 0nat, 0nat, 0nat, 0nat, 0nat, 0nat, 1nat]
}

/// Whether `s` is an IP literal of a loopback address: IPv4 `127.x.y.z`
/// or IPv6 `::1`.
pub open spec fn ip_loopback(s: Seq<char>) -> bool {
    match parse_ipv4(s) {
        Some(o) => o[0] == 127,
        None => parse_ipv6(s) == Some(ipv6_loopback_groups()),
    }
}

fn is_dec_char(c: char) -> (r: bool)
    ensures
        r == is_digit(c),
{
    '0' <= c && c <= '9'
}

fn is_hex_char(c: char) -> (r: bool)
    ensures
        r == is_hex(c),
{
    ('0' <= c && c <= '9') || ('a' <= c && c <= 'f') || ('A' <= c && c <= 'F')
}

fn is_run_char(c: char, hex: bool) -> (r: bool)
    ensures
        r == (if hex {
            is_hex(c)
        } else {
            is_digit(c)
        }),
{
    if hex {
        is_hex_char(c)
    } else {
        is_dec_char(c)
    }
}

fn run_len(v: &Vec<char>, pos: usize, hex: bool) -> (r: usize)
    requires
        pos <= v.len(),
    ensures
        r == (if hex {
            hex_run(v@, pos as int)
        } else {
            dec_run(v@, pos as int)
        }),
        pos + r <= v.len(),
        forall|k: int| pos <= k < pos + r ==> (if hex {
            is_hex(v@[k])
        } else {
            is_digit(v@[k])
        }),
{
    let mut j = pos;
    while j < v.len() && is_run_char(v[j], hex)
        invariant
            pos <= j <= v.len(),
            (if hex {
                hex_run(v@, pos as int)
            } else {
                dec_run(v@, pos as int)
            }) == (j - pos) + (if hex {
                hex_run(v@, j as int)
            } else {
                dec_run(v@, j as int)
            }),
            forall|k: int| pos <= k < j ==> (if hex {
                is_hex(v@[k])
            } else {
                is_digit(v@[k])
            }),
        decreases v.len() - j,
    {
        j = j + 1;
    }
    j - pos
}

fn read_octet_at(v: &Vec<char>, pos: usize) -> (r: Option<(u32, usize)>)
    requires
        pos <= v.len(),
    ensures
        match (r, read_octet(v@, pos as int)) {
            (Some((a, p)), Some((b, q))) => a == b && p == q && p <= v.len(),
            (None, None) => true,
            _ => false,
        },
{
    let n = run_len(v, pos, false);
    if n == 0 || n > 3 || (n > 1 && v[pos] == '0') {
        return None;
    }
    let mut acc: u32 = 0;
    let mut j = pos;
    while j < pos + n
        invariant
            pos <= j <= pos + n <= v.len(),
            n <= 3,
            forall|k: int| pos <= k < pos + n ==> is_digit(v@[k]),
            acc == digits_value(v@.subrange(pos as int, j as int)),
            acc < 1000,
        decreases pos + n - j,
    {
        let d = (v[j] as u32) - ('0' as u32);
        proof {
            let t = v@.subrange(pos as int, j + 1);
            assert(t.drop_last() =~= v@.subrange(pos as int, j as int));
            assert(t.last() == v@[j as int]);
            assert(is_digit(v@[j as int]));
        }
        assert(j - pos < 3);
        assert(acc < 100) by {
            lemma_digits_bound(v@.subrange(pos as int, j as int));
        }
        acc = acc * 10 + d;
        j = j + 1;
    }
    if acc > 255 {
        None
    } else {
        Some((acc, pos + n))
    }
}

proof fn lemma_digits_bound(d: Seq<char>)
    requires
        d.len() <= 2,
        forall|k: int| 0 <= k < d.len() ==> is_digit(d[k]),
    ensures
        digits_value(d) < 100,
        d.len() <= 1 ==> digits_value(d) < 10,
    decreases d.len(),
{
    if d.len() > 0 {
        lemma_digits_bound(d.drop_last());
    }
}

proof fn lemma_hex_bound(d: Seq<char>)
    requires
        d.len() <= 3,
        forall|k: int| 0 <= k < d.len() ==> is_hex(d[k]),
    ensures
        hex_value(d) < 4096,
        d.len() <= 2 ==> hex_value(d) < 256,
        d.len() <= 1 ==> hex_value(d) < 16,
    decreases d.len(),
{
    if d.len() > 0 {
        lemma_hex_bound(d.drop_last());
    }
}

fn hex_digit_value(c: char) -> (r: u32)
    requires
        is_hex(c),
    ensures
        r == hex_val(c),
        r < 16,
{
    if '0' <= c && c <= '9' {
        (c as u32) - ('0' as u32)
    } else if 'a' <= c && c <= 'f' {
        (c as u32) - ('a' as u32) + 10
    } else {
        (c as u32) - ('A' as u32) + 10
    }
}

fn read_hex_at(v: &Vec<char>, pos: usize) -> (r: Option<(u32, usize)>)
    requires
        pos <= v.len(),
    ensures
        match (r, read_hex_group(v@, pos as int)) {
            (Some((a, p)), Some((b, q))) => a == b && p == q && p <= v.len(),
            (None, None) => true,
            _ => false,
        },
{
    let n = run_len(v, pos, true);
    if n == 0 || n > 4 {
        return None;
    }
    let mut acc: u32 = 0;
    let mut j = pos;
    while j < pos + n
        invariant
            pos <= j <= pos + n <= v.len(),
            n <= 4,
            forall|k: int| pos <= k < pos + n ==> is_hex(v@[k]),
            acc == hex_value(v@.subrange(pos as int, j as int)),
        decreases pos + n - j,
    {
        let d = hex_digit_value(v[j]);
        proof {
            let t = v@.subrange(pos as int, j + 1);
            assert(t.drop_last() =~= v@.subrange(pos as int, j as int));
            assert(t.last() == v@[j as int]);
        }
        assert(acc < 4096) by {
            lemma_hex_bound(v@.subrange(pos as int, j as int));
        }
        acc = acc * 16 + d;
        j = j + 1;
    }
    Some((acc, pos + n))
}

fn read_dotted_at(v: &Vec<char>, pos: usize) -> (r: Option<(Vec<u32>, usize)>)
    requires
        pos <= v.len(),
    ensures
        match (r, read_dotted(v@, pos as int, 0)) {
            (Some((a, p)), Some((b, q))) => a@.len() == 4 && b.len() == 4 && (forall|k: int| 0 <= k < 4 ==> a@[k] == b[k] && a@[k] <= 255) && p == q && p <= v.len(),
            (None, None) => true,
            _ => false,
        },
{
    let mut out: Vec<u32> = Vec::new();
    let mut p = pos;
    let mut i: usize = 0;
    while i < 4
        invariant
            i <= 4,
            p <= v.len(),
            out@.len() == i,
            forall|k: int| 0 <= k < i ==> out@[k] <= 255,
            read_dotted(v@, pos as int, 0) == match read_dotted(v@, p as int, i as nat) {
                Some((rest, q)) => Some((out@.map_values(|x: u32| x as nat) + rest, q)),
                None => None,
            },
        decreases 4 - i,
    {
        let st = if i == 0 {
            p
        } else if p < v.len() && v[p] == '.' {
            p + 1
        } else {
            return None;
        };
        match read_octet_at(v, st) {
            None => {
                return None;
            },
            Some((o, q)) => {
                proof {
                    let before = out@.map_values(|x: u32| x as nat);
                    match read_dotted(v@, q as int, (i + 1) as nat) {
                        Some((rest, q2)) => {
                            assert(before + (seq![o as nat] + rest) =~= out@.push(o).map_values(|x: u32| x as nat) + rest);
                        },
                        None => {},
                    }
                }
                out.push(o);
                p = q;
            },
        }
        i = i + 1;
    }
    proof {
        assert(out@.map_values(|x: u32| x as nat) + Seq::<nat>::empty() =~= out@.map_values(|x: u32| x as nat));
    }
    Some((out, p))
}

proof fn lemma_read_groups_len(s: Seq<char>, pos: int, i: nat, limit: nat)
    requires
        i <= limit,
    ensures
        read_groups(s, pos, i, limit).0.len() <= limit - i,
    decreases limit - i,
{
    if i < limit {
        let sep_ok = i == 0 || (0 <= pos < s.len() && s[pos] == ':');
        let st = if i == 0 {
            pos
        } else {
            pos + 1
        };
        match read_hex_group(s, st) {
            Some((g, p)) => {
                lemma_read_groups_len(s, p, i + 1, limit);
            },
            None => {},
        }
    }
}

/// Reads up to `limit` groups from `pos` on.
fn read_groups_at(v: &Vec<char>, pos: usize, limit: usize) -> (r: (Vec<u32>, usize, bool))
    requires
        pos <= v.len(),
        limit <= 8,
    ensures
        r.0@.map_values(|x: u32| x as nat) == read_groups(v@, pos as int, 0, limit as nat).0,
        r.1 == read_groups(v@, pos as int, 0, limit as nat).1,
        r.2 == read_groups(v@, pos as int, 0, limit as nat).2,
        r.1 <= v.len(),
        r.0@.len() <= limit,
{
    let mut out: Vec<u32> = Vec::new();
    let mut p = pos;
    let mut i: usize = 0;
    proof {
        lemma_read_groups_len(v@, pos as int, 0, limit as nat);
    }
    while i < limit
        invariant
            i <= limit <= 8,
            p <= v.len(),
            out@.len() == i,
            ({
                let whole = read_groups(v@, pos as int, 0, limit as nat);
                let rest = read_groups(v@, p as int, i as nat, limit as nat);
                whole.0 == out@.map_values(|x: u32| x as nat) + rest.0 && whole.1 == rest.1 && whole.2 == rest.2
            }),
        decreases limit - i,
    {
        let sep_ok = i == 0 || (p < v.len() && v[p] == ':');
        let st = if i == 0 {
            p
        } else if sep_ok {
            p + 1
        } else {
            p
        };
        if i + 1 < limit && sep_ok {
            if let Some((o, q)) = read_dotted_at(v, st) {
                let g1 = o[0] * 256 + o[1];
                let g2 = o[2] * 256 + o[3];
                let ghost before = out@;
                out.push(g1);
                out.push(g2);
                proof {
                    assert(out@.map_values(|x: u32| x as nat) =~= before.map_values(|x: u32| x as nat) + seq![g1 as nat, g2 as nat]);
                    let whole = read_groups(v@, pos as int, 0, limit as nat);
                    assert(whole.0 =~= out@.map_values(|x: u32| x as nat));
                }
                return (out, q, true);
            }
        }
        if !sep_ok {
            proof {
                let whole = read_groups(v@, pos as int, 0, limit as nat);
                assert(whole.0 =~= out@.map_values(|x: u32| x as nat));
            }
            return (out, p, false);
        }
        match read_hex_at(v, st) {
            None => {
                proof {
                    let whole = read_groups(v@, pos as int, 0, limit as nat);
                    assert(whole.0 =~= out@.map_values(|x: u32| x as nat));
                }
                return (out, p, false);
            },
            Some((g, q)) => {
                let ghost before = out@;
                proof {
                    let rest = read_groups(v@, q as int, (i + 1) as nat, limit as nat);
                    assert(before.map_values(|x: u32| x as nat) + (seq![g as nat] + rest.0) =~= before.push(g).map_values(|x: u32| x as nat) + rest.0);
                }
                out.push(g);
                p = q;
            },
        }
        i = i + 1;
    }
    proof {
        let whole = read_groups(v@, pos as int, 0, limit as nat);
        assert(whole.0 =~= out@.map_values(|x: u32| x as nat));
    }
    (out, p, false)
}

/// Whether the IP literal `v` names a loopback address.
pub fn is_ip_loopback(v: &Vec<char>) -> (r: bool)
    ensures
        r == ip_loopback(v@),
{
    if let Some((o, q)) = read_dotted_at(v, 0) {
        if q == v.len() {
            return o[0] == 127;
        }
    }
    let (head, p1, h4) = read_groups_at(v, 0, 8);
    let ghost hs = head@.map_values(|x: u32| x as nat);
    assert(hs.len() == head@.len());
    if head.len() == 8 {
        if p1 == v.len() {
            let r = head[0] == 0 && head[1] == 0 && head[2] == 0 && head[3] == 0 && head[4] == 0 && head[5] == 0 && head[6] == 0 && head[7] == 1;
            proof {
                if r {
                    assert(hs =~= ipv6_loopback_groups());
                } else {
                    assert(hs != ipv6_loopback_groups()) by {
                        if hs == ipv6_loopback_groups() {
                            assert(hs[0] == head@[0] as nat);
                            assert(hs[7] == head@[7] as nat);
                            assert(hs[1] == head@[1] as nat);
                            assert(hs[2] == head@[2] as nat);
                            assert(hs[3] == head@[3] as nat);
                            assert(hs[4] == head@[4] as nat);
                            assert(hs[5] == head@[5] as nat);
                            assert(hs[6] == head@[6] as nat);
                        }
                    }
                }
            }
            return r;
        }
        return false;
    }
    if h4 {
        return false;
    }
    if !(v.len() - p1 >= 2 && v[p1] == ':' && v[p1 + 1] == ':') {
        return false;
    }
    let limit = 7 - head.len();
    let (tail, p3, _) = read_groups_at(v, p1 + 2, limit);
    if p3 != v.len() {
        return false;
    }
    let ghost ts = tail@.map_values(|x: u32| x as nat);
    let ghost full = hs + Seq::new((8 - hs.len() - ts.len()) as nat, |k: int| 0nat) + ts;
    let hl = head.len();
    let tl = tail.len();
    let mut all_zero_head = true;
    let mut k: usize = 0;
    while k < hl
        invariant
            k <= hl == head@.len(),
            all_zero_head <==> forall|m: int| 0 <= m < k ==> head@[m] == 0,
        decreases hl - k,
    {
        if head[k] != 0 {
            all_zero_head = false;
        }
        k = k + 1;
    }
    let mut tail_ok = true;
    if tl == 0 {
        tail_ok = false;
    } else {
        let mut m: usize = 0;
        while m < tl
            invariant
                m <= tl == tail@.len(),
                tail_ok <==> (forall|x: int| 0 <= x < m ==> (if x == tl - 1 {
                    tail@[x] == 1
                } else {
                    tail@[x] == 0
                })),
            decreases tl - m,
        {
            if m == tl - 1 {
                if tail[m] != 1 {
                    tail_ok = false;
                }
            } else if tail[m] != 0 {
                tail_ok = false;
            }
            m = m + 1;
        }
    }
    let r = all_zero_head && tail_ok;
    proof {
        assert(full.len() == 8);
        if r {
            assert forall|x: int| 0 <= x < 8 implies full[x] == ipv6_loopback_groups()[x] by {
                if x < hs.len() {
                    assert(hs[x] == head@[x] as nat);
                } else if x < 8 - ts.len() {
                } else {
                    assert(ts[x - (8 - ts.len())] == tail@[x - (8 - ts.len())] as nat);
                }
            }
            assert(full =~= ipv6_loopback_groups());
        } else {
            if full == ipv6_loopback_groups() {
                if !all_zero_head {
                    let m = choose|m: int| 0 <= m < hl && head@[m] != 0;
                    assert(full[m] == hs[m]);
                    assert(hs[m] == head@[m] as nat);
                } else {
                    if tl == 0 {
                        assert(full[7] == 0);
                    } else {
                        let x = choose|x: int| 0 <= x < tl && !(if x == tl - 1 {
                            tail@[x] == 1
                        } else {
                            tail@[x] == 0
                        });
                        let y = x + (8 - tl);
                        assert(full[y] == ts[x]);
                        assert(ts[x] == tail@[x] as nat);
                    }
                }
            }
        }
    }
    r
}

} // verus!
