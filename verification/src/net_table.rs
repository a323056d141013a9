//! TCP state names with one-line annotations, and addresses as text, for the
//! network panel.

use crate::event::AF_INET6;
use crate::text::{
    decimal, in_base, numbers_are_digits, numbers_are_read_back, push_decimal, push_hex,
};
use vstd::prelude::*;
use vstd::string::*;

verus! {

/// The name of a TCP state.
pub open spec fn name_of_state(state: u16) -> Seq<char> {
    if state == 1 {
        "ESTABLISHED"@
    } else if state == 2 {
        "SYN_SENT"@
    } else if state == 3 {
        "SYN_RECV"@
    } else if state == 4 {
        "FIN_WAIT1"@
    } else if state == 5 {
        "FIN_WAIT2"@
    } else if state == 6 {
        "TIME_WAIT"@
    } else if state == 7 {
        "CLOSE"@
    } else if state == 8 {
        "CLOSE_WAIT"@
    } else if state == 9 {
        "LAST_ACK"@
    } else if state == 10 {
        "LISTEN"@
    } else if state == 11 {
        "CLOSING"@
    } else if state == 12 {
        "NEW_SYN_RECV"@
    } else {
        "UNKNOWN"@
    }
}

/// The plain-language annotation of a TCP state.
pub open spec fn annotation_of_state(state: u16) -> Seq<char> {
    if state == 1 {
        "connection open, actively usable"@
    } else if state == 2 {
        "we sent SYN, waiting for the peer's reply"@
    } else if state == 3 {
        "inbound SYN received, handshake in progress"@
    } else if state == 4 || state == 5 {
        "we closed our side, waiting on the peer to close theirs"@
    } else if state == 6 {
        "connection closed, waiting to make sure the peer saw it"@
    } else if state == 7 {
        "connection fully closed"@
    } else if state == 8 {
        "peer closed, waiting for us to close our side"@
    } else if state == 9 {
        "we sent our final ack, waiting for it to land"@
    } else if state == 10 {
        "listening for incoming connections"@
    } else if state == 11 {
        "both sides closing simultaneously"@
    } else if state == 12 {
        "inbound SYN queued, not yet accepted"@
    } else {
        "unrecognized TCP state"@
    }
}

/// Names a TCP state.
pub fn state_name(state: u16) -> (name: &'static str)
    ensures
        name@ == name_of_state(state),
{
    match state {
        1 => "ESTABLISHED",
        2 => "SYN_SENT",
        3 => "SYN_RECV",
        4 => "FIN_WAIT1",
        5 => "FIN_WAIT2",
        6 => "TIME_WAIT",
        7 => "CLOSE",
        8 => "CLOSE_WAIT",
        9 => "LAST_ACK",
        10 => "LISTEN",
        11 => "CLOSING",
        12 => "NEW_SYN_RECV",
        _ => "UNKNOWN",
    }
}

/// Says in plain words what a TCP state means.
pub fn state_annotation(state: u16) -> (annotation: &'static str)
    ensures
        annotation@ == annotation_of_state(state),
{
    match state {
        1 => "connection open, actively usable",
        2 => "we sent SYN, waiting for the peer's reply",
        3 => "inbound SYN received, handshake in progress",
        4 | 5 => "we closed our side, waiting on the peer to close theirs",
        6 => "connection closed, waiting to make sure the peer saw it",
        7 => "connection fully closed",
        8 => "peer closed, waiting for us to close our side",
        9 => "we sent our final ack, waiting for it to land",
        10 => "listening for incoming connections",
        11 => "both sides closing simultaneously",
        12 => "inbound SYN queued, not yet accepted",
        _ => "unrecognized TCP state",
    }
}

/// An IPv4 address in dotted decimal.
pub open spec fn ipv4_text(a: Seq<u8>) -> Seq<char> {
    decimal(a[0] as nat) + "."@ + decimal(a[1] as nat) + "."@ + decimal(a[2] as nat) + "."@
        + decimal(a[3] as nat)
}

/// The eight groups of an IPv6 address.
pub open spec fn groups_of(a: Seq<u8>) -> Seq<u16> {
    Seq::new(8, |i: int| (256 * a[2 * i] + a[2 * i + 1]) as u16)
}

/// Groups in hexadecimal, with colons between them.
pub open spec fn groups_text(g: Seq<u16>) -> Seq<char>
    decreases g.len(),
{
    if g.len() == 0 {
        Seq::empty()
    } else if g.len() == 1 {
        in_base(g[0] as nat, 16)
    } else {
        groups_text(g.drop_last()) + ":"@ + in_base(g.last() as nat, 16)
    }
}

/// How many zero groups stand from `i` on.
pub open spec fn zeros_at(g: Seq<u16>, i: int) -> nat
    decreases g.len() - i,
{
    if 0 <= i < g.len() && g[i] == 0 {
        1 + zeros_at(g, i + 1)
    } else {
        0
    }
}

/// Where the longest run of zero groups starts that starts before `n`; the
/// first such, if there are several.
pub open spec fn longest_before(g: Seq<u16>, n: int) -> int
    decreases n,
{
    if n <= 1 {
        0
    } else {
        let best = longest_before(g, n - 1);
        if zeros_at(g, n - 1) > zeros_at(g, best) {
            n - 1
        } else {
            best
        }
    }
}

/// The address holds an IPv4 address.
pub open spec fn is_mapped(g: Seq<u16>) -> bool {
    (forall|i: int| 0 <= i < 5 ==> g[i] == 0) && g[5] == 0xffff
}

/// Groups as an address shows them: the first longest run of two or more zero
/// groups is left out.
pub open spec fn shortened(g: Seq<u16>) -> Seq<char> {
    let start = longest_before(g, 8);
    let run = zeros_at(g, start);
    if run > 1 {
        groups_text(g.take(start)) + "::"@ + groups_text(g.skip(start + run))
    } else {
        groups_text(g)
    }
}

/// An IPv6 address: an embedded IPv4 address is shown as such, and otherwise
/// the groups are.
pub open spec fn ipv6_text(a: Seq<u8>) -> Seq<char> {
    if is_mapped(groups_of(a)) {
        "::ffff:"@ + ipv4_text(a.skip(12))
    } else {
        shortened(groups_of(a))
    }
}

/// The bytes of an address that its text shows.
pub open spec fn shown_bytes(family: u16, a: Seq<u8>) -> Seq<u8> {
    if family == AF_INET6 {
        a
    } else {
        a.take(4)
    }
}

/// An address of a family as text.
pub open spec fn address_text(family: u16, a: Seq<u8>) -> Seq<char> {
    if family == AF_INET6 {
        ipv6_text(a)
    } else {
        ipv4_text(a)
    }
}

fn push_ipv4(out: &mut String, addr: &[u8; 16], at: usize)
    requires
        at <= 12,
    ensures
        final(out)@ == old(out)@ + ipv4_text(addr@.skip(at as int)),
{
    let ghost before = out@;
    push_decimal(out, addr[at] as u128);
    out.append(".");
    push_decimal(out, addr[at + 1] as u128);
    out.append(".");
    push_decimal(out, addr[at + 2] as u128);
    out.append(".");
    push_decimal(out, addr[at + 3] as u128);
    assert(out@ =~= before + ipv4_text(addr@.skip(at as int)));
}

fn groups(addr: &[u8; 16]) -> (g: Vec<u16>)
    ensures
        g@ == groups_of(addr@),
{
    let mut g: Vec<u16> = Vec::new();
    let mut i: usize = 0;
    while i < 8
        invariant
            i <= 8,
            g@.len() == i,
            forall|j: int| 0 <= j < i ==> g@[j] == groups_of(addr@)[j],
        decreases 8 - i,
    {
        g.push(addr[2 * i] as u16 * 256 + addr[2 * i + 1] as u16);
        i += 1;
    }
    assert(g@ =~= groups_of(addr@));
    g
}

fn push_groups(out: &mut String, g: &Vec<u16>, lo: usize, hi: usize)
    requires
        lo <= hi <= g@.len(),
    ensures
        final(out)@ == old(out)@ + groups_text(g@.subrange(lo as int, hi as int)),
{
    let ghost before = out@;
    let mut i: usize = lo;
    assert(out@ =~= before + groups_text(g@.subrange(lo as int, lo as int)));
    while i < hi
        invariant
            lo <= i <= hi <= g@.len(),
            out@ == before + groups_text(g@.subrange(lo as int, i as int)),
        decreases hi - i,
    {
        if i > lo {
            out.append(":");
        }
        push_hex(out, g[i]);
        proof {
            let longer = g@.subrange(lo as int, i + 1);
            assert(longer.drop_last() =~= g@.subrange(lo as int, i as int));
            assert(out@ =~= before + groups_text(longer));
        }
        i += 1;
    }
}

fn count_zeros(g: &Vec<u16>, from: usize) -> (n: usize)
    requires
        from <= g@.len(),
    ensures
        n == zeros_at(g@, from as int),
        from + n <= g@.len(),
    decreases g@.len() - from,
{
    if from < g.len() && g[from] == 0 {
        1 + count_zeros(g, from + 1)
    } else {
        0
    }
}

fn mapped(g: &Vec<u16>) -> (yes: bool)
    requires
        g@.len() == 8,
    ensures
        yes == is_mapped(g@),
{
    g[0] == 0 && g[1] == 0 && g[2] == 0 && g[3] == 0 && g[4] == 0 && g[5] == 0xffff
}

fn longest_zeros(g: &Vec<u16>) -> (start: usize)
    requires
        g@.len() == 8,
    ensures
        start == longest_before(g@, 8),
        start < 8,
{
    let mut best: usize = 0;
    let mut n: usize = 1;
    while n < 8
        invariant
            1 <= n <= 8,
            g@.len() == 8,
            best < 8,
            best == longest_before(g@, n as int),
        decreases 8 - n,
    {
        if count_zeros(g, n) > count_zeros(g, best) {
            best = n;
        }
        n += 1;
    }
    best
}

/// Writes an address of the given family as text.
pub fn format_addr(family: u16, addr: &[u8; 16]) -> (text: String)
    ensures
        text@ == address_text(family, addr@),
{
    let mut out = String::new();
    push_addr(&mut out, family, addr);
    assert(Seq::<char>::empty() + address_text(family, addr@) =~= address_text(family, addr@));
    out
}

/// Appends an address of the given family.
pub fn push_addr(out: &mut String, family: u16, addr: &[u8; 16])
    ensures
        final(out)@ == old(out)@ + address_text(family, addr@),
{
    let ghost before = out@;
    if family == AF_INET6 {
        let g = groups(addr);
        let start: usize = longest_zeros(&g);
        let run: usize = count_zeros(&g, start);
        assert(g@.subrange(0, 8) =~= g@);
        if mapped(&g) {
            out.append("::ffff:");
            push_ipv4(out, addr, 12);
        } else if run > 1 {
            push_groups(out, &g, 0, start);
            out.append("::");
            push_groups(out, &g, start + run, 8);
            assert(g@.subrange(0, start as int) =~= g@.take(start as int));
            assert(g@.subrange(start + run, 8) =~= g@.skip(start + run));
        } else {
            push_groups(out, &g, 0, 8);
        }
        assert(out@ =~= before + ipv6_text(addr@));
    } else {
        push_ipv4(out, addr, 0);
        assert(addr@.skip(0) =~= addr@);
    }
}

/// The run of zero groups that an IPv6 address leaves out is a longest one, and
/// no run as long starts before it.
pub proof fn longest_run_is_left_out(g: Seq<u16>, i: int)
    requires
        0 <= i < 8,
    ensures
        0 <= longest_before(g, 8) < 8,
        zeros_at(g, i) <= zeros_at(g, longest_before(g, 8)),
        i < longest_before(g, 8) ==> zeros_at(g, i) < zeros_at(g, longest_before(g, 8)),
{
    lemma_longest_before(g, 8, i);
}

proof fn lemma_longest_before(g: Seq<u16>, n: int, i: int)
    requires
        0 <= i < n,
    ensures
        0 <= longest_before(g, n) < n,
        zeros_at(g, i) <= zeros_at(g, longest_before(g, n)),
        i < longest_before(g, n) ==> zeros_at(g, i) < zeros_at(g, longest_before(g, n)),
    decreases n,
{
    if n > 1 {
        if i < n - 1 {
            lemma_longest_before(g, n - 1, i);
        } else {
            lemma_longest_before(g, n - 1, 0);
        }
    }
}

/// Every state has a name and an annotation, also one that is not known.
pub proof fn states_are_explained(state: u16)
    ensures
        name_of_state(state).len() > 0,
        annotation_of_state(state).len() > 0,
{
    reveal_strlit("ESTABLISHED");
    reveal_strlit("SYN_SENT");
    reveal_strlit("SYN_RECV");
    reveal_strlit("FIN_WAIT1");
    reveal_strlit("FIN_WAIT2");
    reveal_strlit("TIME_WAIT");
    reveal_strlit("CLOSE");
    reveal_strlit("CLOSE_WAIT");
    reveal_strlit("LAST_ACK");
    reveal_strlit("LISTEN");
    reveal_strlit("CLOSING");
    reveal_strlit("NEW_SYN_RECV");
    reveal_strlit("UNKNOWN");
    reveal_strlit("connection open, actively usable");
    reveal_strlit("we sent SYN, waiting for the peer's reply");
    reveal_strlit("inbound SYN received, handshake in progress");
    reveal_strlit("we closed our side, waiting on the peer to close theirs");
    reveal_strlit("connection closed, waiting to make sure the peer saw it");
    reveal_strlit("connection fully closed");
    reveal_strlit("peer closed, waiting for us to close our side");
    reveal_strlit("we sent our final ack, waiting for it to land");
    reveal_strlit("listening for incoming connections");
    reveal_strlit("both sides closing simultaneously");
    reveal_strlit("inbound SYN queued, not yet accepted");
    reveal_strlit("unrecognized TCP state");
}

/// A mark that stands nowhere in a text.
spec fn lacks(s: Seq<char>, c: char) -> bool {
    forall|i: int| 0 <= i < s.len() ==> #[trigger] s[i] != c
}

/// The first mark splits a text in one way only.
proof fn lemma_first_split(a: Seq<char>, x: Seq<char>, b: Seq<char>, y: Seq<char>, c: char)
    requires
        lacks(a, c),
        lacks(b, c),
        a + seq![c] + x == b + seq![c] + y,
    ensures
        a == b,
        x == y,
{
    let t = a + seq![c] + x;
    let u = b + seq![c] + y;
    assert(t[a.len() as int] == c && u[b.len() as int] == c);
    if a.len() < b.len() {
        assert(u[a.len() as int] == b[a.len() as int]);
    }
    if b.len() < a.len() {
        assert(t[b.len() as int] == a[b.len() as int]);
    }
    assert(a =~= t.take(a.len() as int));
    assert(b =~= u.take(a.len() as int));
    assert(x =~= t.skip(a.len() as int + 1));
    assert(y =~= u.skip(a.len() as int + 1));
}

/// The last mark splits a text in one way only.
proof fn lemma_last_split(x: Seq<char>, a: Seq<char>, y: Seq<char>, b: Seq<char>, c: char)
    requires
        lacks(a, c),
        lacks(b, c),
        x + seq![c] + a == y + seq![c] + b,
    ensures
        x == y,
        a == b,
{
    let t = x + seq![c] + a;
    let u = y + seq![c] + b;
    assert(t.len() == x.len() + 1 + a.len() && t.len() == y.len() + 1 + b.len());
    assert(t[x.len() as int] == c && u[y.len() as int] == c);
    if x.len() < y.len() {
        let k = y.len() - x.len() - 1;
        assert(0 <= k < a.len());
        assert(t[y.len() as int] == a[k]);
    }
    if y.len() < x.len() {
        let k = x.len() - y.len() - 1;
        assert(0 <= k < b.len());
        assert(u[x.len() as int] == b[k]);
    }
    assert(x =~= t.take(x.len() as int));
    assert(y =~= u.take(x.len() as int));
    assert(a =~= t.skip(x.len() as int + 1));
    assert(b =~= u.skip(x.len() as int + 1));
}

proof fn lemma_regroup(
    a: Seq<char>,
    b: Seq<char>,
    c: Seq<char>,
    d: Seq<char>,
    dot: Seq<char>,
)
    ensures
        a + dot + b + dot + c + dot + d == a + dot + (b + dot + (c + dot + d)),
{
    let x = a + dot;
    let y = b + dot;
    assert(x + b + dot =~= x + y);
    assert((x + y) + c + dot + d =~= (x + y) + (c + dot + d));
    assert((x + y) + (c + dot + d) =~= x + (y + (c + dot + d)));
}

proof fn lemma_ipv4_read_back(a: Seq<u8>, b: Seq<u8>)
    requires
        a.len() >= 4,
        b.len() >= 4,
        ipv4_text(a) == ipv4_text(b),
    ensures
        a.take(4) == b.take(4),
{
    reveal_strlit(".");
    let dot = seq!['.'];
    assert("."@ =~= dot);
    assert forall|n: nat| #[trigger] lacks(decimal(n), '.') by {
        numbers_are_digits(n, 10);
    }
    let (a0, a1, a2, a3) = (
        decimal(a[0] as nat),
        decimal(a[1] as nat),
        decimal(a[2] as nat),
        decimal(a[3] as nat),
    );
    let (b0, b1, b2, b3) = (
        decimal(b[0] as nat),
        decimal(b[1] as nat),
        decimal(b[2] as nat),
        decimal(b[3] as nat),
    );
    assert(lacks(a0, '.') && lacks(a1, '.') && lacks(a2, '.'));
    assert(lacks(b0, '.') && lacks(b1, '.') && lacks(b2, '.'));
    lemma_regroup(a0, a1, a2, a3, dot);
    lemma_regroup(b0, b1, b2, b3, dot);
    lemma_first_split(a0, a1 + dot + (a2 + dot + a3), b0, b1 + dot + (b2 + dot + b3), '.');
    lemma_first_split(a1, a2 + dot + a3, b1, b2 + dot + b3, '.');
    lemma_first_split(a2, a3, b2, b3, '.');
    numbers_are_read_back(a[0] as nat, b[0] as nat, 10);
    numbers_are_read_back(a[1] as nat, b[1] as nat, 10);
    numbers_are_read_back(a[2] as nat, b[2] as nat, 10);
    numbers_are_read_back(a[3] as nat, b[3] as nat, 10);
    assert(a.take(4) =~= b.take(4));
}

/// Groups are written without dots, with no two colons side by side, and with
/// none at either end.
proof fn lemma_groups_shape(g: Seq<u16>)
    ensures
        lacks(groups_text(g), '.'),
        groups_text(g).len() > 0 <==> g.len() > 0,
        g.len() > 0 ==> groups_text(g).last() != ':',
        forall|i: int|
            0 <= i < groups_text(g).len() - 1 && #[trigger] groups_text(g)[i] == ':'
                ==> groups_text(g)[i + 1] != ':',
    decreases g.len(),
{
    if g.len() > 0 {
        numbers_are_digits(g.last() as nat, 16);
        if g.len() > 1 {
            reveal_strlit(":");
            let head = groups_text(g.drop_last());
            let tail = in_base(g.last() as nat, 16);
            lemma_groups_shape(g.drop_last());
            let t = groups_text(g);
            assert(t =~= head + seq![':'] + tail);
            assert(tail[0] != ':');
            assert forall|i: int| 0 <= i < t.len() - 1 && #[trigger] t[i] == ':' implies t[i + 1]
                != ':' by {
                if i < head.len() {
                    assert(t[i] == head[i]);
                    assert(i < head.len() - 1);
                    assert(t[i + 1] == head[i + 1]);
                } else if i == head.len() {
                    assert(t[i + 1] == tail[0]);
                } else {
                    assert(t[i] == tail[i - head.len() - 1]);
                }
            }
            assert forall|i: int| 0 <= i < t.len() implies #[trigger] t[i] != '.' by {
                if i < head.len() {
                    assert(t[i] == head[i]);
                } else if i > head.len() {
                    assert(t[i] == tail[i - head.len() - 1]);
                }
            }
        }
    }
}

proof fn lemma_groups_read_back(g: Seq<u16>, h: Seq<u16>)
    requires
        groups_text(g) == groups_text(h),
    ensures
        g == h,
    decreases g.len(),
{
    lemma_groups_shape(g);
    lemma_groups_shape(h);
    if g.len() > 0 {
        reveal_strlit(":");
        let (a, b) = (in_base(g.last() as nat, 16), in_base(h.last() as nat, 16));
        numbers_are_digits(g.last() as nat, 16);
        numbers_are_digits(h.last() as nat, 16);
        assert(lacks(a, ':') && lacks(b, ':'));
        let (x, y) = (groups_text(g.drop_last()), groups_text(h.drop_last()));
        if g.len() > 1 {
            assert(groups_text(g) =~= x + seq![':'] + a);
            assert(groups_text(g)[x.len() as int] == ':');
        }
        if h.len() > 1 {
            assert(groups_text(h) =~= y + seq![':'] + b);
            assert(groups_text(h)[y.len() as int] == ':');
        }
        if g.len() > 1 && h.len() > 1 {
            lemma_last_split(x, a, y, b, ':');
            lemma_groups_read_back(g.drop_last(), h.drop_last());
            numbers_are_read_back(g.last() as nat, h.last() as nat, 16);
            assert(g =~= g.drop_last().push(g.last()));
            assert(h =~= h.drop_last().push(h.last()));
        } else {
            assert(g.len() == 1 && h.len() == 1);
            numbers_are_read_back(g[0] as nat, h[0] as nat, 16);
            assert(g =~= h);
        }
    } else {
        assert(g =~= h);
    }
}

/// Where two colons stand side by side, groups were left out; that place splits
/// the text in one way only.
proof fn lemma_gap(g: Seq<u16>, p: Seq<u16>, h: Seq<u16>, q: Seq<u16>)
    requires
        groups_text(g) + "::"@ + groups_text(p) == groups_text(h) + "::"@ + groups_text(q),
        groups_text(g).len() <= groups_text(h).len(),
    ensures
        g == h,
        p == q,
{
    reveal_strlit("::");
    let (a, b) = (groups_text(g), groups_text(h));
    let (x, y) = (groups_text(p), groups_text(q));
    let (t, u) = (a + "::"@ + x, b + "::"@ + y);
    lemma_groups_shape(g);
    lemma_groups_shape(h);
    let n = a.len() as int;
    assert(t[n] == ':' && t[n + 1] == ':');
    if n < b.len() {
        assert(u[n] == b[n]);
        if n + 1 < b.len() {
            assert(u[n + 1] == b[n + 1]);
        }
        assert(false);
    }
    assert(a =~= t.take(n));
    assert(b =~= u.take(n));
    assert(x =~= t.skip(n + 2));
    assert(y =~= u.skip(n + 2));
    lemma_groups_read_back(g, h);
    lemma_groups_read_back(p, q);
}

proof fn lemma_zeros(g: Seq<u16>, i: int)
    requires
        0 <= i <= g.len(),
    ensures
        i + zeros_at(g, i) <= g.len(),
        forall|j: int| i <= j < i + zeros_at(g, i) ==> g[j] == 0,
    decreases g.len() - i,
{
    if i < g.len() && g[i] == 0 {
        lemma_zeros(g, i + 1);
    }
}

/// Where the groups of an address are left out, and how many.
spec fn gap(g: Seq<u16>) -> (int, int) {
    (longest_before(g, 8), zeros_at(g, longest_before(g, 8)) as int)
}

proof fn lemma_plain_groups_read_back(g: Seq<u16>, h: Seq<u16>)
    requires
        g.len() == 8,
        h.len() == 8,
        shortened(g) == shortened(h),
    ensures
        g == h,
{
    longest_run_is_left_out(g, 0);
    longest_run_is_left_out(h, 0);
    let (i, m) = gap(g);
    let (j, n) = gap(h);
    lemma_zeros(g, i);
    lemma_zeros(h, j);
    lemma_groups_shape(g);
    lemma_groups_shape(h);
    reveal_strlit("::");
    if m > 1 && n > 1 {
        if groups_text(g.take(i)).len() <= groups_text(h.take(j)).len() {
            lemma_gap(g.take(i), g.skip(i + m), h.take(j), h.skip(j + n));
        } else {
            lemma_gap(h.take(j), h.skip(j + n), g.take(i), g.skip(i + m));
        }
        assert(g.take(i).len() == i && h.take(j).len() == j);
        assert(g.skip(i + m).len() == 8 - i - m && h.skip(j + n).len() == 8 - j - n);
        assert forall|k: int| 0 <= k < 8 implies g[k] == h[k] by {
            if k < i {
                assert(g[k] == g.take(i)[k] && h[k] == h.take(j)[k]);
            } else if k >= i + m {
                assert(g[k] == g.skip(i + m)[k - i - m] && h[k] == h.skip(j + n)[k - j - n]);
            }
        }
        assert(g =~= h);
    } else if m <= 1 && n <= 1 {
        lemma_groups_read_back(g, h);
    } else if m > 1 {
        let k = groups_text(g.take(i)).len() as int;
        assert(shortened(g)[k] == ':' && shortened(g)[k + 1] == ':');
        assert(groups_text(h)[k] == ':' && groups_text(h)[k + 1] == ':');
    } else {
        let k = groups_text(h.take(j)).len() as int;
        assert(shortened(h)[k] == ':' && shortened(h)[k + 1] == ':');
        assert(groups_text(g)[k] == ':' && groups_text(g)[k + 1] == ':');
    }
}

proof fn lemma_no_dot(g: Seq<u16>)
    requires
        g.len() == 8,
    ensures
        lacks(shortened(g), '.'),
{
    reveal_strlit("::");
    longest_run_is_left_out(g, 0);
    let (i, m) = gap(g);
    lemma_zeros(g, i);
    lemma_groups_shape(g);
    lemma_groups_shape(g.take(i));
    lemma_groups_shape(g.skip(i + m));
    if m > 1 {
        let (a, b) = (groups_text(g.take(i)), groups_text(g.skip(i + m)));
        let t = a + "::"@ + b;
        assert forall|k: int| 0 <= k < t.len() implies #[trigger] t[k] != '.' by {
            if k < a.len() {
                assert(t[k] == a[k]);
            } else if k >= a.len() + 2 {
                assert(t[k] == b[k - a.len() - 2]);
            }
        }
    }
}

/// A mapped address holds a dot.
proof fn lemma_dot(a: Seq<u8>)
    ensures
        !lacks("::ffff:"@ + ipv4_text(a), '.'),
{
    reveal_strlit(".");
    let head = "::ffff:"@ + decimal(a[0] as nat);
    let t = "::ffff:"@ + ipv4_text(a);
    assert(t[head.len() as int] == '.');
}

proof fn lemma_bytes_of_groups(a: Seq<u8>, b: Seq<u8>)
    requires
        a.len() == 16,
        b.len() == 16,
        groups_of(a) == groups_of(b),
    ensures
        a == b,
{
    assert forall|k: int| 0 <= k < 16 implies a[k] == b[k] by {
        let i = k / 2;
        assert(groups_of(a)[i] == 256 * a[2 * i] + a[2 * i + 1]);
        assert(groups_of(b)[i] == 256 * b[2 * i] + b[2 * i + 1]);
        assert(k == 2 * i || k == 2 * i + 1);
    }
    assert(a =~= b);
}

proof fn lemma_ipv6_read_back(a: Seq<u8>, b: Seq<u8>)
    requires
        a.len() == 16,
        b.len() == 16,
        ipv6_text(a) == ipv6_text(b),
    ensures
        a == b,
{
    let (g, h) = (groups_of(a), groups_of(b));
    lemma_no_dot(g);
    lemma_no_dot(h);
    lemma_dot(a.skip(12));
    lemma_dot(b.skip(12));
    assert(is_mapped(g) == is_mapped(h));
    if is_mapped(g) {
        let (x, y) = (ipv4_text(a.skip(12)), ipv4_text(b.skip(12)));
        let n = "::ffff:"@.len() as int;
        assert(x =~= ("::ffff:"@ + x).skip(n));
        assert(y =~= ("::ffff:"@ + y).skip(n));
        lemma_ipv4_read_back(a.skip(12), b.skip(12));
        assert forall|k: int| 12 <= k < 16 implies a[k] == b[k] by {
            assert(a.skip(12).take(4)[k - 12] == b.skip(12).take(4)[k - 12]);
        }
        assert(g =~= h);
    } else {
        lemma_plain_groups_read_back(g, h);
    }
    lemma_bytes_of_groups(a, b);
}

/// An address can be read back from its text: of one family, two addresses are
/// written alike exactly if the bytes shown are the same, which are all sixteen
/// for IPv6 and the first four otherwise.
pub proof fn addresses_are_read_back(family: u16, a: Seq<u8>, b: Seq<u8>)
    requires
        a.len() == 16,
        b.len() == 16,
    ensures
        address_text(family, a) == address_text(family, b) <==> shown_bytes(family, a)
            == shown_bytes(family, b),
{
    if family == AF_INET6 {
        if ipv6_text(a) == ipv6_text(b) {
            lemma_ipv6_read_back(a, b);
        }
    } else {
        if ipv4_text(a) == ipv4_text(b) {
            lemma_ipv4_read_back(a, b);
        }
        if a.take(4) == b.take(4) {
            assert(a[0] == a.take(4)[0] && a[1] == a.take(4)[1] && a[2] == a.take(4)[2] && a[3]
                == a.take(4)[3]);
            assert(b[0] == b.take(4)[0] && b[1] == b.take(4)[1] && b[2] == b.take(4)[2] && b[3]
                == b.take(4)[3]);
        }
    }
}

/// The twelve states of TCP by their numbers, and what each means; any other
/// number is no state that is known.
pub proof fn states_have_their_numbers(state: u16)
    ensures
        state == 1 ==> name_of_state(state) == "ESTABLISHED"@,
        state == 1 ==> annotation_of_state(state) == "connection open, actively usable"@,
        state == 2 ==> name_of_state(state) == "SYN_SENT"@,
        state == 2 ==> annotation_of_state(state) == "we sent SYN, waiting for the peer's reply"@,
        state == 3 ==> name_of_state(state) == "SYN_RECV"@,
        state == 3 ==> annotation_of_state(state) == "inbound SYN received, handshake in progress"@,
        state == 4 ==> name_of_state(state) == "FIN_WAIT1"@,
        state == 4 ==> annotation_of_state(state) == "we closed our side, waiting on the peer to close theirs"@,
        state == 5 ==> name_of_state(state) == "FIN_WAIT2"@,
        state == 5 ==> annotation_of_state(state) == "we closed our side, waiting on the peer to close theirs"@,
        state == 6 ==> name_of_state(state) == "TIME_WAIT"@,
        state == 6 ==> annotation_of_state(state) == "connection closed, waiting to make sure the peer saw it"@,
        state == 7 ==> name_of_state(state) == "CLOSE"@,
        state == 7 ==> annotation_of_state(state) == "connection fully closed"@,
        state == 8 ==> name_of_state(state) == "CLOSE_WAIT"@,
        state == 8 ==> annotation_of_state(state) == "peer closed, waiting for us to close our side"@,
        state == 9 ==> name_of_state(state) == "LAST_ACK"@,
        state == 9 ==> annotation_of_state(state) == "we sent our final ack, waiting for it to land"@,
        state == 10 ==> name_of_state(state) == "LISTEN"@,
        state == 10 ==> annotation_of_state(state) == "listening for incoming connections"@,
        state == 11 ==> name_of_state(state) == "CLOSING"@,
        state == 11 ==> annotation_of_state(state) == "both sides closing simultaneously"@,
        state == 12 ==> name_of_state(state) == "NEW_SYN_RECV"@,
        state == 12 ==> annotation_of_state(state) == "inbound SYN queued, not yet accepted"@,
        state == 0 || state > 12 ==> name_of_state(state) == "UNKNOWN"@,
        state == 0 || state > 12 ==> annotation_of_state(state) == "unrecognized TCP state"@,
{
}

/// The groups of an address are its bytes in pairs, the first of a pair weighing
/// the most.
pub proof fn groups_are_pairs_of_bytes(a: Seq<u8>, i: int)
    requires
        a.len() == 16,
        0 <= i < 8,
    ensures
        groups_of(a).len() == 8,
        groups_of(a)[i] == 0x100 * a[2 * i] + a[2 * i + 1],
{
}

/// Groups are written in hexadecimal in their order, with a colon between any
/// two.
pub proof fn groups_are_joined_by_colons(g: Seq<u16>, x: u16)
    ensures
        groups_text(Seq::empty()) == Seq::<char>::empty(),
        groups_text(seq![x]) == in_base(x as nat, 16),
        g.len() > 0 ==> groups_text(g.push(x)) == groups_text(g) + ":"@ + in_base(x as nat, 16),
{
    assert(g.push(x).drop_last() =~= g);
}

/// An IPv4 address is its first four bytes in decimal, in their order.
pub proof fn ipv4_addresses_are_four_numbers(family: u16, a: Seq<u8>)
    requires
        family != 10,
    ensures
        address_text(family, a) == decimal(a[0] as nat) + "."@ + decimal(a[1] as nat) + "."@
            + decimal(a[2] as nat) + "."@ + decimal(a[3] as nat),
{
}

/// An IPv6 address that begins with ten zero bytes and two of all ones shows its
/// last four bytes as an IPv4 address.
pub proof fn mapped_addresses_show_their_last_bytes(a: Seq<u8>)
    requires
        a.len() == 16,
        forall|i: int| 0 <= i < 10 ==> #[trigger] a[i] == 0,
        a[10] == 255 && a[11] == 255,
    ensures
        address_text(10, a) == "::ffff:"@ + (decimal(a[12] as nat) + "."@ + decimal(a[13] as nat)
            + "."@ + decimal(a[14] as nat) + "."@ + decimal(a[15] as nat)),
{
    assert forall|i: int| 0 <= i < 5 implies groups_of(a)[i] == 0 by {
        assert(a[2 * i] == 0 && a[2 * i + 1] == 0);
    }
}

/// Any other IPv6 address shows its groups: all of them where no two zero groups
/// stand side by side, and otherwise all but one run of zero groups, which is
/// the first of the longest ones. Where that run starts and how long it is, is
/// returned.
pub proof fn other_addresses_show_their_groups(a: Seq<u8>) -> (gap: (int, int))
    requires
        a.len() == 16,
        (exists|i: int| 0 <= i < 10 && #[trigger] a[i] != 0) || a[10] != 255 || a[11] != 255,
    ensures
        ({
            let g = groups_of(a);
            let (start, run) = gap;
            &&& run == 0 ==> address_text(10, a) == groups_text(g)
            &&& run == 0 ==> forall|i: int|
                0 <= i < 7 ==> #[trigger] g[i] != 0 || g[i + 1] != 0
            &&& run == 0 || (run > 1 && 0 <= start && start + run <= 8)
            &&& run > 0 ==> address_text(10, a) == groups_text(g.take(start)) + "::"@ + groups_text(
                g.skip(start + run),
            )
            &&& forall|i: int| start <= i < start + run ==> #[trigger] g[i] == 0
            &&& run > 0 && start + run < 8 ==> g[start + run] != 0
            &&& run > 0 ==> forall|i: int, n: int|
                0 <= i && i + n <= 8 && n > 0 && (forall|k: int| i <= k < i + n ==> g[k] == 0)
                    ==> #[trigger] spans(i, n, run, start)
        }),
{
    let g = groups_of(a);
    let start = longest_before(g, 8);
    let run = zeros_at(g, start) as int;
    assert(!is_mapped(g)) by {
        if is_mapped(g) {
            assert forall|i: int| 0 <= i < 10 implies #[trigger] a[i] == 0 by {
                assert(g[i / 2] == 0x100 * a[2 * (i / 2)] + a[2 * (i / 2) + 1]);
                assert(g[i / 2] == 0);
            }
            assert(g[5] == 0x100 * a[10] + a[11]);
        }
    }
    longest_run_is_left_out(g, 0);
    lemma_zeros(g, start);
    if run > 1 {
        lemma_zeros_end(g, start);
        assert forall|i: int, n: int|
            0 <= i && i + n <= 8 && n > 0 && (forall|k: int| i <= k < i + n ==> g[k] == 0)
            implies #[trigger] spans(i, n, run, start) by {
            lemma_zeros_at_least(g, i, n);
            longest_run_is_left_out(g, i);
        }
        (start, run)
    } else {
        assert forall|i: int| 0 <= i < 7 implies #[trigger] g[i] != 0 || g[i + 1] != 0 by {
            if g[i] == 0 && g[i + 1] == 0 {
                lemma_zeros_at_least(g, i, 2);
                longest_run_is_left_out(g, i);
            }
        }
        (0, 0)
    }
}

/// A run of `n` zero groups from `i` on is no longer than the one that is left
/// out, and shorter if it starts before it.
pub open spec fn spans(i: int, n: int, run: int, start: int) -> bool {
    n <= run && (i < start ==> n < run)
}

proof fn lemma_zeros_at_least(g: Seq<u16>, i: int, n: int)
    requires
        0 <= i,
        0 <= n,
        i + n <= g.len(),
        forall|k: int| i <= k < i + n ==> g[k] == 0,
    ensures
        zeros_at(g, i) >= n,
    decreases n,
{
    if n > 0 {
        lemma_zeros_at_least(g, i + 1, n - 1);
    }
}

proof fn lemma_zeros_end(g: Seq<u16>, i: int)
    requires
        0 <= i <= g.len(),
    ensures
        i + zeros_at(g, i) < g.len() ==> g[i + zeros_at(g, i)] != 0,
    decreases g.len() - i,
{
    if i < g.len() && g[i] == 0 {
        lemma_zeros_end(g, i + 1);
    }
}

} // verus!
