//! The fetch guard: recognize URL hosts that are literal network addresses.
//! A host given as a raw IPv4/IPv6 address, or a domain string that itself
//! reads as one, is rejected before any network call is attempted. This is a
//! minimal literal-address check, not a reachability or allow-list control.

use vstd::prelude::*;

use crate::media::MediaError;

verus! {

/// The host component of a request URL, as the URL layer reports it: a
/// domain name (as bytes), an address already parsed as IPv4 or IPv6, or no
/// host at all.
pub enum UrlHost {
    Domain(Vec<u8>),
    Ipv4,
    Ipv6,
    Missing,
}

pub open spec fn is_digit(b: u8) -> bool {
    48 <= b <= 57
}

pub open spec fn is_hex_digit(b: u8) -> bool {
    is_digit(b) || (97 <= b <= 102) || (65 <= b <= 70)
}

pub open spec fn all_digits(s: Seq<u8>) -> bool {
    forall|i: int| 0 <= i < s.len() ==> is_digit(#[trigger] s[i])
}

/// The number a digit string denotes, most significant digit first.
pub open spec fn dec_value(s: Seq<u8>) -> int
    decreases s.len(),
{
    if s.len() == 0 {
        0
    } else {
        dec_value(s.drop_last()) * 10 + (s.last() - 48)
    }
}

/// One dotted-decimal octet: one to three digits, no leading zero, at most
/// 255.
pub open spec fn is_dec_octet(s: Seq<u8>) -> bool {
    &&& 1 <= s.len() <= 3
    &&& all_digits(s)
    &&& (s.len() > 1 ==> s[0] != 48)
    &&& dec_value(s) <= 255
}

/// One hexadecimal group of an IPv6 address: one to four hex digits.
pub open spec fn is_hex_group(s: Seq<u8>) -> bool {
    &&& 1 <= s.len() <= 4
    &&& forall|i: int| 0 <= i < s.len() ==> is_hex_digit(#[trigger] s[i])
}

/// Split `s` at every occurrence of `sep`; always yields at least one piece,
/// and empty pieces where separators meet.
pub open spec fn split_at_sep(s: Seq<u8>, sep: u8) -> Seq<Seq<u8>>
    decreases s.len(),
{
    if s.len() == 0 {
        seq![Seq::<u8>::empty()]
    } else if s[0] == sep {
        seq![Seq::<u8>::empty()].add(split_at_sep(s.subrange(1, s.len() as int), sep))
    } else {
        let rest = split_at_sep(s.subrange(1, s.len() as int), sep);
        seq![seq![s[0]].add(rest[0])].add(rest.subrange(1, rest.len() as int))
    }
}

pub proof fn lemma_split_len(s: Seq<u8>, sep: u8)
    ensures
        split_at_sep(s, sep).len() >= 1,
    decreases s.len(),
{
    if s.len() != 0 {
        lemma_split_len(s.subrange(1, s.len() as int), sep);
    }
}

/// Appending one byte extends the final piece, or starts a fresh empty piece
/// when the byte is the separator.
pub proof fn lemma_split_push(s: Seq<u8>, sep: u8, c: u8)
    ensures
        c == sep ==> split_at_sep(s.push(c), sep) == split_at_sep(s, sep).push(
            Seq::<u8>::empty(),
        ),
        c != sep ==> split_at_sep(s.push(c), sep) == split_at_sep(s, sep).update(
            split_at_sep(s, sep).len() - 1,
            split_at_sep(s, sep).last().push(c),
        ),
    decreases s.len(),
{
    lemma_split_len(s, sep);
    let u = s.push(c);
    assert(u.len() == s.len() + 1);
    if s.len() == 0 {
        assert(u[0] == c);
        assert(u.subrange(1, 1) =~= Seq::<u8>::empty());
        assert(split_at_sep(Seq::<u8>::empty(), sep) == seq![Seq::<u8>::empty()]);
        if c == sep {
            assert(split_at_sep(u, sep) == seq![Seq::<u8>::empty()].add(
                split_at_sep(Seq::<u8>::empty(), sep),
            ));
            assert(split_at_sep(u, sep) =~~= split_at_sep(s, sep).push(Seq::<u8>::empty()));
        } else {
            assert(seq![u[0]].add(split_at_sep(u.subrange(1, 1), sep)[0]) =~= seq![c]);
            assert(Seq::<u8>::empty().push(c) =~= seq![c]);
            assert(split_at_sep(u, sep) =~~= split_at_sep(s, sep).update(
                0,
                Seq::<u8>::empty().push(c),
            ));
        }
    } else {
        let t = s.subrange(1, s.len() as int);
        assert(u[0] == s[0]);
        assert(u.subrange(1, u.len() as int) =~= t.push(c));
        lemma_split_push(t, sep, c);
        lemma_split_len(t, sep);
        let st = split_at_sep(t, sep);
        let stc = split_at_sep(t.push(c), sep);
        if s[0] == sep {
            if c == sep {
                assert(split_at_sep(u, sep) =~~= split_at_sep(s, sep).push(Seq::<u8>::empty()));
            } else {
                assert(split_at_sep(s, sep).last() == st.last());
                assert(split_at_sep(u, sep) =~~= split_at_sep(s, sep).update(
                    split_at_sep(s, sep).len() - 1,
                    split_at_sep(s, sep).last().push(c),
                ));
            }
        } else {
            if c == sep {
                assert(stc == st.push(Seq::<u8>::empty()));
                assert(stc[0] == st[0]);
                assert(stc.subrange(1, stc.len() as int) =~~= st.subrange(
                    1,
                    st.len() as int,
                ).push(Seq::<u8>::empty()));
                assert(split_at_sep(u, sep) =~~= split_at_sep(s, sep).push(Seq::<u8>::empty()));
            } else {
                assert(stc == st.update(st.len() - 1, st.last().push(c)));
                if st.len() == 1 {
                    assert(stc[0] == st[0].push(c));
                    assert(seq![s[0]].add(st[0].push(c)) =~= seq![s[0]].add(st[0]).push(c));
                    assert(split_at_sep(s, sep).len() == 1);
                    assert(split_at_sep(s, sep).last() == seq![s[0]].add(st[0]));
                    assert(split_at_sep(u, sep) =~~= split_at_sep(s, sep).update(
                        split_at_sep(s, sep).len() - 1,
                        split_at_sep(s, sep).last().push(c),
                    ));
                } else {
                    assert(stc[0] == st[0]);
                    assert(stc.subrange(1, stc.len() as int) =~~= st.subrange(
                        1,
                        st.len() as int,
                    ).update(st.len() - 2, st.last().push(c)));
                    assert(split_at_sep(s, sep).last() == st.last());
                    assert(split_at_sep(u, sep) =~~= split_at_sep(s, sep).update(
                        split_at_sep(s, sep).len() - 1,
                        split_at_sep(s, sep).last().push(c),
                    ));
                }
            }
        }
    }
}

/// The views of the byte vectors in `v`.
pub open spec fn views_of(v: Seq<Vec<u8>>) -> Seq<Seq<u8>> {
    v.map_values(|x: Vec<u8>| x@)
}

/// Split a byte slice at every occurrence of `sep`.
pub fn split_bytes(s: &[u8], sep: u8) -> (r: Vec<Vec<u8>>)
    ensures
        views_of(r@) == split_at_sep(s@, sep),
{
    let mut parts: Vec<Vec<u8>> = Vec::new();
    let mut cur: Vec<u8> = Vec::new();
    let mut i: usize = 0;
    proof {
        assert(s@.subrange(0, 0) =~= Seq::<u8>::empty());
        assert(views_of(parts@).push(cur@) =~= split_at_sep(s@.subrange(0, 0), sep));
    }
    while i < s.len()
        invariant
            0 <= i <= s@.len(),
            split_at_sep(s@.subrange(0, i as int), sep) == views_of(parts@).push(cur@),
        decreases s@.len() - i,
    {
        proof {
            assert(s@.subrange(0, i + 1) =~= s@.subrange(0, i as int).push(s@[i as int]));
            lemma_split_push(s@.subrange(0, i as int), sep, s@[i as int]);
            lemma_split_len(s@.subrange(0, i as int), sep);
        }
        let ghost old_parts = parts@;
        let ghost old_cur = cur@;
        if s[i] == sep {
            parts.push(cur);
            cur = Vec::new();
            proof {
                assert(views_of(parts@) =~= views_of(old_parts).push(old_cur));
                assert(views_of(parts@).push(cur@) =~= split_at_sep(s@.subrange(0, i + 1), sep));
            }
        } else {
            cur.push(s[i]);
            proof {
                let prev = views_of(old_parts).push(old_cur);
                assert(prev.update(prev.len() - 1, prev.last().push(s@[i as int])) =~= views_of(
                    parts@,
                ).push(cur@));
            }
        }
        i = i + 1;
    }
    proof {
        assert(s@.subrange(0, s@.len() as int) =~= s@);
    }
    parts.push(cur);
    proof {
        assert(views_of(parts@) =~= views_of(parts@.drop_last()).push(cur@));
    }
    parts
}

/// A dotted-quad IPv4 literal: exactly four dot-separated decimal octets.
pub open spec fn spec_is_ipv4(s: Seq<u8>) -> bool {
    let segs = split_at_sep(s, 46u8);
    &&& segs.len() == 4
    &&& is_dec_octet(segs[0])
    &&& is_dec_octet(segs[1])
    &&& is_dec_octet(segs[2])
    &&& is_dec_octet(segs[3])
}

/// Check one decimal octet.
fn check_dec_octet(s: &[u8]) -> (r: bool)
    ensures
        r == is_dec_octet(s@),
{
    if s.len() < 1 || s.len() > 3 {
        return false;
    }
    let mut i: usize = 0;
    let mut val: u32 = 0;
    proof {
        assert(s@.subrange(0, 0) =~= Seq::<u8>::empty());
    }
    while i < s.len()
        invariant
            0 <= i <= s@.len() <= 3,
            val == dec_value(s@.subrange(0, i as int)),
            i == 0 ==> val == 0,
            i == 1 ==> val <= 9,
            i == 2 ==> val <= 99,
            i == 3 ==> val <= 999,
            forall|j: int| 0 <= j < i ==> is_digit(#[trigger] s@[j]),
        decreases s@.len() - i,
    {
        let b = s[i];
        if b < 48 || b > 57 {
            return false;
        }
        proof {
            assert(s@.subrange(0, i + 1).drop_last() =~= s@.subrange(0, i as int));
            assert(s@.subrange(0, i + 1).last() == s@[i as int]);
        }
        val = val * 10 + ((b - 48) as u32);
        i = i + 1;
    }
    proof {
        assert(s@.subrange(0, s@.len() as int) =~= s@);
    }
    if val > 255 {
        return false;
    }
    if s.len() > 1 && s[0] == 48 {
        return false;
    }
    true
}

/// Check one hexadecimal group.
fn check_hex_group(s: &[u8]) -> (r: bool)
    ensures
        r == is_hex_group(s@),
{
    if s.len() < 1 || s.len() > 4 {
        return false;
    }
    let mut i: usize = 0;
    while i < s.len()
        invariant
            0 <= i <= s@.len(),
            forall|j: int| 0 <= j < i ==> is_hex_digit(#[trigger] s@[j]),
        decreases s@.len() - i,
    {
        let b = s[i];
        if !((48 <= b && b <= 57) || (97 <= b && b <= 102) || (65 <= b && b <= 70)) {
            return false;
        }
        i = i + 1;
    }
    true
}

/// Check a dotted-quad IPv4 literal.
pub fn is_ipv4_literal(s: &[u8]) -> (r: bool)
    ensures
        r == spec_is_ipv4(s@),
{
    let segs = split_bytes(s, 46u8);
    if segs.len() != 4 {
        return false;
    }
    let r = check_dec_octet(segs[0].as_slice()) && check_dec_octet(segs[1].as_slice())
        && check_dec_octet(segs[2].as_slice()) && check_dec_octet(segs[3].as_slice());
    proof {
        assert(views_of(segs@)[0] == segs@[0]@);
        assert(views_of(segs@)[1] == segs@[1]@);
        assert(views_of(segs@)[2] == segs@[2]@);
        assert(views_of(segs@)[3] == segs@[3]@);
    }
    r
}

/// No piece of `gs` in `[lo, hi)` is empty.
pub open spec fn no_empty(gs: Seq<Seq<u8>>, lo: int, hi: int) -> bool {
    forall|i: int| lo <= i < hi ==> (#[trigger] gs[i]).len() > 0
}

/// All pieces of `gs` in `[lo, hi)` are hexadecimal groups.
pub open spec fn all_hex_groups(gs: Seq<Seq<u8>>, lo: int, hi: int) -> bool {
    forall|i: int| lo <= i < hi ==> is_hex_group(#[trigger] gs[i])
}

/// The pieces after a `::`: hexadecimal groups, where the final piece may
/// instead be an embedded IPv4 literal.
pub open spec fn is_tail(gs: Seq<Seq<u8>>) -> bool {
    &&& all_hex_groups(gs, 0, gs.len() - 1)
    &&& (gs.len() > 0 ==> (is_hex_group(gs.last()) || spec_is_ipv4(gs.last())))
}

/// How many 16-bit groups the tail stands for: an embedded IPv4 literal
/// counts as two.
pub open spec fn tail_units(gs: Seq<Seq<u8>>) -> int {
    if gs.len() > 0 && spec_is_ipv4(gs.last()) {
        gs.len() + 1int
    } else {
        gs.len() as int
    }
}

/// An IPv6 literal: eight colon-separated groups (the last two replaceable
/// by an embedded IPv4 literal), or a single `::` standing for one or more
/// zero groups, with the remaining groups leaving it at least one to cover.
pub open spec fn spec_is_ipv6(s: Seq<u8>) -> bool {
    let g = split_at_sep(s, 58u8);
    let n = g.len() as int;
    ||| (no_empty(g, 0, n) && ((n == 8 && all_hex_groups(g, 0, 8)) || (n == 7 && all_hex_groups(
        g,
        0,
        6,
    ) && spec_is_ipv4(g[6]))))
    ||| (exists|i: int|
        0 < i < n - 1 && (#[trigger] g[i]).len() == 0 && no_empty(g, 0, i) && no_empty(g, i + 1, n)
            && all_hex_groups(g, 0, i) && is_tail(g.subrange(i + 1, n)) && i + tail_units(
            g.subrange(i + 1, n),
        ) <= 7)
    ||| (n >= 3 && g[0].len() == 0 && g[1].len() == 0 && no_empty(g, 2, n) && is_tail(
        g.subrange(2, n),
    ) && tail_units(g.subrange(2, n)) <= 7)
    ||| (n >= 3 && g[n - 1].len() == 0 && g[n - 2].len() == 0 && no_empty(g, 0, n - 2)
        && all_hex_groups(g, 0, n - 2) && n - 2 <= 7)
    ||| (n == 3 && g[0].len() == 0 && g[1].len() == 0 && g[2].len() == 0)
}

/// A sequence without the separator splits into exactly itself.
proof fn lemma_split_no_sep(s: Seq<u8>, sep: u8)
    requires
        forall|i: int| 0 <= i < s.len() ==> s[i] != sep,
    ensures
        split_at_sep(s, sep) == seq![s],
    decreases s.len(),
{
    if s.len() == 0 {
        assert(split_at_sep(s, sep) =~~= seq![s]);
    } else {
        let t = s.subrange(1, s.len() as int);
        lemma_split_no_sep(t, sep);
        assert(seq![s[0]].add(t) =~= s);
        assert(split_at_sep(t, sep).subrange(1, 1) =~= Seq::<Seq<u8>>::empty());
        assert(split_at_sep(s, sep) =~~= seq![s]);
    }
}

/// A hexadecimal group holds no dot, so it is never an IPv4 literal, and an
/// empty piece is not one either.
proof fn lemma_not_ipv4(s: Seq<u8>)
    requires
        is_hex_group(s) || s.len() == 0,
    ensures
        !spec_is_ipv4(s),
{
    lemma_split_no_sep(s, 46u8);
}

/// Check the pieces of `gs` in `[lo, hi)`: all hexadecimal groups, except
/// that the last piece (when `v4_last` is set) may be an IPv4 literal.
/// Returns whether the range is valid and how many 16-bit groups it covers.
fn check_groups(gs: &Vec<Vec<u8>>, lo: usize, hi: usize, v4_last: bool) -> (r: (bool, usize))
    requires
        0 <= lo <= hi <= gs@.len(),
        hi - lo <= 16,
    ensures
        !v4_last ==> r.0 == all_hex_groups(views_of(gs@), lo as int, hi as int),
        v4_last ==> r.0 == is_tail(views_of(gs@).subrange(lo as int, hi as int)),
        r.0 ==> (if v4_last {
            r.1 == tail_units(views_of(gs@).subrange(lo as int, hi as int))
        } else {
            r.1 == hi - lo
        }),
{
    let ghost part = views_of(gs@).subrange(lo as int, hi as int);
    proof {
        assert(forall|j: int| 0 <= j < part.len() ==> part[j] == views_of(gs@)[lo + j]);
    }
    let mut i: usize = lo;
    while i < hi
        invariant
            lo <= i <= hi <= gs@.len(),
            hi - lo <= 16,
            forall|j: int| lo <= j < i ==> is_hex_group(#[trigger] views_of(gs@)[j]),
            part == views_of(gs@).subrange(lo as int, hi as int),
            forall|j: int| 0 <= j < part.len() ==> part[j] == views_of(gs@)[lo + j],
        decreases hi - i,
    {
        let seg = gs[i].as_slice();
        proof {
            assert(views_of(gs@)[i as int] == gs@[i as int]@);
        }
        if check_hex_group(seg) {
            i = i + 1;
        } else if v4_last && i == hi - 1 && is_ipv4_literal(seg) {
            proof {
                assert(part.last() == views_of(gs@)[i as int]);
                lemma_split_len(part.last(), 46u8);
            }
            return (true, hi - lo + 1);
        } else {
            proof {
                if v4_last {
                    assert(part[i - lo] == views_of(gs@)[i as int]);
                    if i < hi - 1 {
                        assert(!all_hex_groups(part, 0, part.len() - 1));
                    } else {
                        assert(part.last() == views_of(gs@)[i as int]);
                    }
                }
            }
            return (false, 0);
        }
    }
    proof {
        if v4_last && part.len() > 0 {
            assert(part.last() == views_of(gs@)[hi - 1]);
            lemma_not_ipv4(part.last());
        }
    }
    (true, hi - lo)
}

/// Index of the first empty piece of `gs` at or after `from`, or the length
/// when there is none.
fn find_empty(gs: &Vec<Vec<u8>>, from: usize) -> (r: usize)
    requires
        from <= gs@.len(),
    ensures
        from <= r <= gs@.len(),
        forall|j: int| from <= j < r ==> (#[trigger] views_of(gs@)[j]).len() > 0,
        r < gs@.len() ==> views_of(gs@)[r as int].len() == 0,
{
    let mut i: usize = from;
    while i < gs.len()
        invariant
            from <= i <= gs@.len(),
            forall|j: int| from <= j < i ==> (#[trigger] views_of(gs@)[j]).len() > 0,
        decreases gs@.len() - i,
    {
        proof {
            assert(views_of(gs@)[i as int] == gs@[i as int]@);
        }
        if gs[i].len() == 0 {
            return i;
        }
        i = i + 1;
    }
    i
}

/// Check an IPv6 literal.
pub fn is_ipv6_literal(s: &[u8]) -> (r: bool)
    ensures
        r == spec_is_ipv6(s@),
{
    let segs = split_bytes(s, 58u8);
    let ghost g = views_of(segs@);
    let n = segs.len();
    proof {
        lemma_split_len(s@, 58u8);
    }
    if n > 9 {
        // a valid literal never splits into more than nine pieces
        proof {
            assert forall|i: int|
                0 < i < n - 1 && (#[trigger] g[i]).len() == 0 implies !(is_tail(
                g.subrange(i + 1, n as int),
            ) && i + tail_units(g.subrange(i + 1, n as int)) <= 7) by {
                assert(tail_units(g.subrange(i + 1, n as int)) >= n - i - 1);
            }
            assert(tail_units(g.subrange(2, n as int)) >= n - 2);
        }
        return false;
    }
    let e1 = find_empty(&segs, 0);
    if e1 == n {
        // no empty piece: one of the two full forms
        if n == 8 {
            let (ok, _) = check_groups(&segs, 0, 8, false);
            ok
        } else if n == 7 {
            let (ok, _) = check_groups(&segs, 0, 6, false);
            proof {
                assert(g[6] == segs@[6]@);
            }
            ok && is_ipv4_literal(segs[6].as_slice())
        } else {
            false
        }
    } else if e1 == 0 {
        proof {
            assert(g[0].len() == 0);
        }
        if n >= 3 {
            proof {
                assert(g[1] == segs@[1]@);
                assert(g[2] == segs@[2]@);
            }
            if segs[1].len() == 0 {
                if n == 3 && segs[2].len() == 0 {
                    // the bare `::`
                    true
                } else {
                    let e3 = find_empty(&segs, 2);
                    if e3 == n {
                        // leading `::`
                        let (ok, units) = check_groups(&segs, 2, n, true);
                        ok && units <= 7
                    } else {
                        false
                    }
                }
            } else {
                false
            }
        } else {
            false
        }
    } else {
        let e2 = find_empty(&segs, e1 + 1);
        if e2 == n {
            if e1 < n - 1 {
                // one `::` between groups
                let (okh, _) = check_groups(&segs, 0, e1, false);
                let (okt, units) = check_groups(&segs, e1 + 1, n, true);
                okh && okt && e1 <= 7 && units <= 7 - e1
            } else {
                // a single trailing colon
                false
            }
        } else if e2 == e1 + 1 && e2 == n - 1 {
            // trailing `::`
            let (okh, _) = check_groups(&segs, 0, e1, false);
            okh && n - 2 <= 7
        } else {
            false
        }
    }
}

/// A host that looks like a literal network address: a raw IPv4/IPv6 host, a
/// domain string that itself reads as an address literal, or a missing host.
pub open spec fn spec_private_like(h: UrlHost) -> bool {
    match h {
        UrlHost::Domain(s) => spec_is_ipv4(s@) || spec_is_ipv6(s@),
        UrlHost::Ipv4 => true,
        UrlHost::Ipv6 => true,
        UrlHost::Missing => true,
    }
}

/// Whether the host is a literal network address (or absent) and so must not
/// be fetched.
pub fn is_private_like(h: &UrlHost) -> (r: bool)
    ensures
        r == spec_private_like(*h),
{
    match h {
        UrlHost::Domain(s) => {
            let v4 = is_ipv4_literal(s.as_slice());
            if v4 {
                true
            } else {
                is_ipv6_literal(s.as_slice())
            }
        },
        UrlHost::Ipv4 => true,
        UrlHost::Ipv6 => true,
        UrlHost::Missing => true,
    }
}

/// Gate a fetch target: rejected exactly when the host looks like a literal
/// network address.
pub fn check_fetch_target(h: &UrlHost) -> (r: Result<(), MediaError>)
    ensures
        r is Ok <==> !spec_private_like(*h),
        r is Err ==> r matches Err(MediaError::AddressRejected),
{
    if is_private_like(h) {
        Err(MediaError::AddressRejected)
    } else {
        Ok(())
    }
}

/// Gate a fetch response: accepted exactly when the HTTP status is a
/// success (2xx); anything else is a distinguishable network failure.
pub fn check_fetch_status(status: u16) -> (r: Result<(), MediaError>)
    ensures
        r is Ok <==> 200 <= status <= 299,
        r matches Err(e) ==> e is NetworkFailed,
{
    if 200 <= status && status <= 299 {
        Ok(())
    } else {
        Err(MediaError::NetworkFailed("fetch did not succeed".to_owned()))
    }
}

} // verus!
