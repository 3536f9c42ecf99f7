//! Textual socket addresses: `a.b.c.d:port`, `[v6%scope]:port`, and bare IP
//! addresses, with the grammar of the standard library's address parsers.
use vstd::prelude::*;

verus! {

/// Whether `c` is a digit in base 10 (`hex == false`) or base 16.
pub open spec fn is_digit(c: char, hex: bool) -> bool {
    ('0' <= c && c <= '9') || (hex && (('a' <= c && c <= 'f') || ('A' <= c && c <= 'F')))
}

/// The value of a digit character.
pub open spec fn digit_val(c: char) -> nat {
    if '0' <= c && c <= '9' {
        (c as int - '0' as int) as nat
    } else if 'a' <= c && c <= 'f' {
        (c as int - 'a' as int + 10) as nat
    } else if 'A' <= c && c <= 'F' {
        (c as int - 'A' as int + 10) as nat
    } else {
        0
    }
}

pub open spec fn radix(hex: bool) -> nat {
    if hex { 16 } else { 10 }
}

/// Length of the run of digits that starts at `p`.
pub open spec fn digit_run(s: Seq<char>, p: int, hex: bool) -> nat
    decreases s.len() - p,
{
    if 0 <= p < s.len() && is_digit(s[p], hex) {
        1 + digit_run(s, p + 1, hex)
    } else {
        0
    }
}

/// Value of the `n` digits that start at `p`, most significant first.
pub open spec fn digits_value(s: Seq<char>, p: int, n: nat, hex: bool) -> nat
    decreases n,
{
    if n == 0 {
        0
    } else {
        digits_value(s, p, (n - 1) as nat, hex) * radix(hex) + digit_val(s[p + n - 1])
    }
}

/// Reads the whole run of digits at `p` as a number no greater than `bound`.
/// It fails on an empty run, on a run longer than `max_digits` (when that is
/// positive), and, unless `zero_prefix`, on a run of two or more digits that
/// starts with `0`. On success: the value and the position after the run.
pub open spec fn read_number(
    s: Seq<char>,
    p: int,
    hex: bool,
    max_digits: nat,
    zero_prefix: bool,
    bound: nat,
) -> Option<(nat, int)> {
    let n = digit_run(s, p, hex);
    let v = digits_value(s, p, n, hex);
    if n == 0 || (max_digits > 0 && n > max_digits) || v > bound || (!zero_prefix && s[p]
        == '0' && n > 1) {
        None
    } else {
        Some((v, p + n))
    }
}

/// Whether position `j` of `s` holds a digit.
pub open spec fn digit_at_pos(s: Seq<char>, j: int, hex: bool) -> bool {
    0 <= j < s.len() && is_digit(s[j], hex)
}

proof fn lemma_digit_run_split(s: Seq<char>, p: int, i: int, hex: bool)
    requires
        0 <= p <= i,
        forall|j: int| p <= j < i ==> #[trigger] digit_at_pos(s, j, hex),
    ensures
        digit_run(s, p, hex) == (i - p) + digit_run(s, i, hex),
    decreases i - p,
{
    if p < i {
        assert(digit_at_pos(s, p, hex));
        lemma_digit_run_split(s, p + 1, i, hex);
    }
}

proof fn lemma_digits_value_monotone(s: Seq<char>, p: int, n: nat, m: nat, hex: bool)
    requires
        n <= m,
    ensures
        digits_value(s, p, n, hex) <= digits_value(s, p, m, hex),
    decreases m,
{
    if n < m {
        lemma_digits_value_monotone(s, p, n, (m - 1) as nat, hex);
        let w = digits_value(s, p, (m - 1) as nat, hex);
        assert(w <= w * radix(hex)) by (nonlinear_arith)
            requires
                radix(hex) >= 1,
        ;
    }
}

fn digit_at(c: char, hex: bool) -> (r: Option<u64>)
    ensures
        r is Some <==> is_digit(c, hex),
        r is Some ==> r->Some_0 == digit_val(c) && r->Some_0 < radix(hex),
{
    if '0' <= c && c <= '9' {
        Some((c as u32 - '0' as u32) as u64)
    } else if hex && 'a' <= c && c <= 'f' {
        Some((c as u32 - 'a' as u32 + 10) as u64)
    } else if hex && 'A' <= c && c <= 'F' {
        Some((c as u32 - 'A' as u32 + 10) as u64)
    } else {
        None
    }
}

fn read_number_at(
    s: &Vec<char>,
    p: usize,
    hex: bool,
    max_digits: usize,
    zero_prefix: bool,
    bound: u64,
) -> (r: Option<(u64, usize)>)
    requires
        p <= s@.len(),
        bound <= u32::MAX,
    ensures
        match read_number(s@, p as int, hex, max_digits as nat, zero_prefix, bound as nat) {
            None => r is None,
            Some((v, q)) => r is Some && r->Some_0.0 == v && r->Some_0.1 == q && v <= bound && q
                <= s@.len(),
        },
{
    let base: u64 = if hex { 16 } else { 10 };
    let mut acc: u64 = 0;
    let mut i: usize = p;
    while i < s.len()
        invariant
            p <= i <= s@.len(),
            base == radix(hex),
            bound <= u32::MAX,
            acc <= bound,
            acc == digits_value(s@, p as int, (i - p) as nat, hex),
            max_digits == 0 || i - p <= max_digits,
            forall|j: int| p <= j < i ==> #[trigger] digit_at_pos(s@, j, hex),
        ensures
            p <= i <= s@.len(),
            acc <= bound,
            acc == digits_value(s@, p as int, (i - p) as nat, hex),
            forall|j: int| p <= j < i ==> #[trigger] digit_at_pos(s@, j, hex),
            i == s@.len() || !is_digit(s@[i as int], hex),
        decreases s@.len() - i,
    {
        let d = match digit_at(s[i], hex) {
            Some(d) => d,
            None => break,
        };
        let ghost n = (i - p) as nat;
        proof {
            assert(digit_at_pos(s@, i as int, hex));
            lemma_digit_run_split(s@, p as int, i + 1, hex);
            assert(digits_value(s@, p as int, n + 1, hex) == acc * base + d);
            lemma_digits_value_monotone(s@, p as int, n + 1, digit_run(s@, p as int, hex), hex);
        }
        assert(acc * base + d <= u32::MAX * 16 + 15) by (nonlinear_arith)
            requires
                acc <= u32::MAX,
                base <= 16,
                d < 16,
        ;
        let next = acc * base + d;
        if next > bound {
            return None;
        }
        acc = next;
        i = i + 1;
        if max_digits > 0 && i - p > max_digits {
            return None;
        }
    }
    proof {
        lemma_digit_run_split(s@, p as int, i as int, hex);
        assert(digit_run(s@, i as int, hex) == 0);
    }
    if i == p {
        return None;
    }
    if !zero_prefix && s[p] == '0' && i - p > 1 {
        return None;
    }
    Some((acc, i))
}


/// Whether position `p` of `s` holds the character `c`.
pub open spec fn char_at(s: Seq<char>, p: int, c: char) -> bool {
    0 <= p < s.len() && s[p] == c
}

/// The octet with index `i` of a dotted IPv4 address: a `.` before all but
/// the first, then one to three decimal digits without a leading zero.
pub open spec fn read_octet(s: Seq<char>, p: int, i: nat) -> Option<(nat, int)> {
    if i == 0 {
        read_number(s, p, false, 3, false, 255)
    } else if char_at(s, p, '.') {
        read_number(s, p + 1, false, 3, false, 255)
    } else {
        None
    }
}

/// Reads the octets with index `i` to 3 of a dotted IPv4 address.
pub open spec fn read_octets(s: Seq<char>, p: int, i: nat) -> Option<(Seq<u8>, int)>
    decreases 4 - i,
{
    if i >= 4 {
        Some((seq![], p))
    } else {
        match read_octet(s, p, i) {
            None => None,
            Some((v, q)) => match read_octets(s, q, i + 1) {
                None => None,
                Some((rest, e)) => Some((seq![v as u8] + rest, e)),
            },
        }
    }
}

/// An IPv4 address at `p`: its four octets and the position after it.
pub open spec fn read_ipv4(s: Seq<char>, p: int) -> Option<(Seq<u8>, int)> {
    read_octets(s, p, 0)
}

/// The item with index `i` of a colon-separated list: a `:` before all but
/// the first.
pub open spec fn after_colon(s: Seq<char>, p: int, i: nat) -> Option<int> {
    if i == 0 {
        Some(p)
    } else if char_at(s, p, ':') {
        Some(p + 1)
    } else {
        None
    }
}

/// Group `i` of an IPv6 address as one to four hexadecimal digits.
pub open spec fn read_hex_group(s: Seq<char>, p: int, i: nat) -> Option<(nat, int)> {
    match after_colon(s, p, i) {
        None => None,
        Some(q) => read_number(s, q, true, 4, true, 0xffff),
    }
}

/// Groups `i` and `i + 1` of an IPv6 address written as an IPv4 address.
pub open spec fn read_embedded_ipv4(s: Seq<char>, p: int, i: nat) -> Option<(Seq<u8>, int)> {
    match after_colon(s, p, i) {
        None => None,
        Some(q) => read_ipv4(s, q),
    }
}

/// Two 16-bit groups made of four octets, high octet first.
pub open spec fn octet_pairs(o: Seq<u8>) -> Seq<u16> {
    seq![(o[0] * 256 + o[1]) as u16, (o[2] * 256 + o[3]) as u16]
}

/// Reads the groups with index `i` up to `limit` of an IPv6 address for as
/// long as they are there: the groups read, the position after them, and
/// whether the last two were written as an IPv4 address (which needs room
/// for two groups).
pub open spec fn read_groups(s: Seq<char>, p: int, i: nat, limit: nat) -> (Seq<u16>, int, bool)
    decreases limit - i,
{
    if i >= limit {
        (seq![], p, false)
    } else if i + 1 < limit && read_embedded_ipv4(s, p, i) is Some {
        let (o, q) = read_embedded_ipv4(s, p, i)->Some_0;
        (octet_pairs(o), q, true)
    } else {
        match read_hex_group(s, p, i) {
            None => (seq![], p, false),
            Some((g, q)) => {
                let r = read_groups(s, q, i + 1, limit);
                (seq![g as u16] + r.0, r.1, r.2)
            },
        }
    }
}

/// An IPv6 address at `p`: eight groups, or fewer groups around one `::`
/// that stands for at least one zero group.
pub open spec fn read_ipv6(s: Seq<char>, p: int) -> Option<(Seq<u16>, int)> {
    let (head, q, v4) = read_groups(s, p, 0, 8);
    if head.len() == 8 {
        Some((head, q))
    } else if v4 || !(char_at(s, q, ':') && char_at(s, q + 1, ':')) {
        None
    } else {
        let (tail, e, _) = read_groups(s, q + 2, 0, (7 - head.len()) as nat);
        Some((head + Seq::new((8 - head.len() - tail.len()) as nat, |k: int| 0u16) + tail, e))
    }
}

proof fn lemma_read_octets_len(s: Seq<char>, p: int, i: nat)
    requires
        i <= 4,
    ensures
        read_octets(s, p, i) is Some ==> read_octets(s, p, i)->Some_0.0.len() == 4 - i,
    decreases 4 - i,
{
    if i < 4 {
        if let Some((v, q)) = read_octet(s, p, i) {
            lemma_read_octets_len(s, q, i + 1);
        }
    }
}

proof fn lemma_read_groups_len(s: Seq<char>, p: int, i: nat, limit: nat)
    requires
        i <= limit,
    ensures
        read_groups(s, p, i, limit).0.len() <= limit - i,
        read_groups(s, p, i, limit).2 ==> read_groups(s, p, i, limit).0.len() >= 2,
    decreases limit - i,
{
    if i < limit && !(i + 1 < limit && read_embedded_ipv4(s, p, i) is Some) {
        if let Some((g, q)) = read_hex_group(s, p, i) {
            lemma_read_groups_len(s, q, i + 1, limit);
        }
    }
}

fn read_octet_at(s: &Vec<char>, p: usize, i: usize) -> (r: Option<(u64, usize)>)
    requires
        p <= s@.len(),
    ensures
        match read_octet(s@, p as int, i as nat) {
            None => r is None,
            Some((v, q)) => r is Some && r->Some_0.0 == v && r->Some_0.1 == q && v <= 255 && q
                <= s@.len(),
        },
{
    if i == 0 {
        read_number_at(s, p, false, 3, false, 255)
    } else if p < s.len() && s[p] == '.' {
        read_number_at(s, p + 1, false, 3, false, 255)
    } else {
        None
    }
}

fn read_octets_at(s: &Vec<char>, p: usize, i: usize) -> (r: Option<(Vec<u8>, usize)>)
    requires
        p <= s@.len(),
        i <= 4,
    ensures
        match read_octets(s@, p as int, i as nat) {
            None => r is None,
            Some((o, q)) => r is Some && r->Some_0.0@ == o && r->Some_0.1 == q && q <= s@.len(),
        },
    decreases 4 - i,
{
    if i >= 4 {
        let empty: Vec<u8> = Vec::new();
        proof {
            assert(empty@ =~= seq![]);
        }
        return Some((empty, p));
    }
    match read_octet_at(s, p, i) {
        None => None,
        Some((v, q)) => {
            match read_octets_at(s, q, i + 1) {
                None => None,
                Some((rest, e)) => {
                    let mut out = rest;
                    out.insert(0, v as u8);
                    proof {
                        assert(out@ =~= seq![v as u8] + rest@);
                    }
                    Some((out, e))
                },
            }
        },
    }
}

fn after_colon_at(s: &Vec<char>, p: usize, i: usize) -> (r: Option<usize>)
    requires
        p <= s@.len(),
    ensures
        match after_colon(s@, p as int, i as nat) {
            None => r is None,
            Some(q) => r is Some && r->Some_0 == q && q <= s@.len(),
        },
{
    if i == 0 {
        Some(p)
    } else if p < s.len() && s[p] == ':' {
        Some(p + 1)
    } else {
        None
    }
}

fn read_hex_group_at(s: &Vec<char>, p: usize, i: usize) -> (r: Option<(u64, usize)>)
    requires
        p <= s@.len(),
    ensures
        match read_hex_group(s@, p as int, i as nat) {
            None => r is None,
            Some((v, q)) => r is Some && r->Some_0.0 == v && r->Some_0.1 == q && v <= 0xffff && q
                <= s@.len(),
        },
{
    match after_colon_at(s, p, i) {
        None => None,
        Some(q) => read_number_at(s, q, true, 4, true, 0xffff),
    }
}

fn read_embedded_ipv4_at(s: &Vec<char>, p: usize, i: usize) -> (r: Option<(Vec<u8>, usize)>)
    requires
        p <= s@.len(),
    ensures
        match read_embedded_ipv4(s@, p as int, i as nat) {
            None => r is None,
            Some((o, q)) => r is Some && r->Some_0.0@ == o && r->Some_0.1 == q && q <= s@.len()
                && o.len() == 4,
        },
{
    match after_colon_at(s, p, i) {
        None => None,
        Some(q) => {
            proof {
                lemma_read_octets_len(s@, q as int, 0);
            }
            read_octets_at(s, q, 0)
        },
    }
}

fn read_groups_at(s: &Vec<char>, p: usize, i: usize, limit: usize) -> (r: (Vec<u16>, usize, bool))
    requires
        p <= s@.len(),
        i <= limit <= 8,
    ensures
        r.0@ == read_groups(s@, p as int, i as nat, limit as nat).0,
        r.1 == read_groups(s@, p as int, i as nat, limit as nat).1,
        r.2 == read_groups(s@, p as int, i as nat, limit as nat).2,
        r.1 <= s@.len(),
    decreases limit - i,
{
    proof {
        lemma_read_groups_len(s@, p as int, i as nat, limit as nat);
    }
    let empty: Vec<u16> = Vec::new();
    proof {
        assert(empty@ =~= seq![]);
    }
    if i >= limit {
        return (empty, p, false);
    }
    if i + 1 < limit {
        if let Some((o, q)) = read_embedded_ipv4_at(s, p, i) {
            let mut g: Vec<u16> = Vec::new();
            g.push((o[0] as u16) * 256 + o[1] as u16);
            g.push((o[2] as u16) * 256 + o[3] as u16);
            proof {
                assert(g@ =~= octet_pairs(o@));
            }
            return (g, q, true);
        }
    }
    match read_hex_group_at(s, p, i) {
        None => (empty, p, false),
        Some((v, q)) => {
            let (rest, e, v4) = read_groups_at(s, q, i + 1, limit);
            let mut out = rest;
            out.insert(0, v as u16);
            proof {
                assert(out@ =~= seq![v as u16] + rest@);
            }
            (out, e, v4)
        },
    }
}

fn read_ipv6_at(s: &Vec<char>, p: usize) -> (r: Option<([u16; 8], usize)>)
    requires
        p <= s@.len(),
    ensures
        match read_ipv6(s@, p as int) {
            None => r is None,
            Some((g, q)) => r is Some && r->Some_0.0@ == g && r->Some_0.1 == q && q <= s@.len(),
        },
{
    let (head, q, v4) = read_groups_at(s, p, 0, 8);
    proof {
        lemma_read_groups_len(s@, p as int, 0, 8);
    }
    let mut out: [u16; 8] = [0u16; 8];
    if head.len() == 8 {
        let mut k: usize = 0;
        while k < 8
            invariant
                k <= 8,
                head@.len() == 8,
                out@.len() == 8,
                forall|j: int| 0 <= j < k ==> out@[j] == head@[j],
            decreases 8 - k,
        {
            out.set(k, head[k]);
            k = k + 1;
        }
        proof {
            assert(out@ =~= head@);
        }
        return Some((out, q));
    }
    if v4 || !(q < s.len() && s[q] == ':' && q + 1 < s.len() && s[q + 1] == ':') {
        return None;
    }
    let (tail, e, _) = read_groups_at(s, q + 2, 0, 7 - head.len());
    proof {
        lemma_read_groups_len(s@, q + 2, 0, (7 - head@.len()) as nat);
    }
    let gap = 8 - head.len() - tail.len();
    let ghost want = head@ + Seq::new(gap as nat, |k: int| 0u16) + tail@;
    let mut k: usize = 0;
    while k < head.len()
        invariant
            k <= head@.len() < 8,
            out@.len() == 8,
            forall|j: int| 0 <= j < k ==> out@[j] == want[j],
            forall|j: int| k <= j < 8 ==> out@[j] == 0,
            want.len() == 8,
            want == head@ + Seq::new(gap as nat, |k: int| 0u16) + tail@,
        decreases head@.len() - k,
    {
        out.set(k, head[k]);
        k = k + 1;
    }
    let mut t: usize = 0;
    while t < tail.len()
        invariant
            head@.len() + gap + tail@.len() == 8,
            t <= tail@.len(),
            out@.len() == 8,
            forall|j: int| 0 <= j < head@.len() + gap + t ==> out@[j] == want[j],
            want.len() == 8,
            want == head@ + Seq::new(gap as nat, |k: int| 0u16) + tail@,
        decreases tail@.len() - t,
    {
        out.set(8 - tail.len() + t, tail[t]);
        t = t + 1;
    }
    proof {
        assert(out@ =~= want);
    }
    Some((out, e))
}

/// An IP address: four octets, or eight 16-bit groups.
#[derive(Clone, Copy, Debug, PartialEq, Eq)]
pub enum IpAddress {
    V4([u8; 4]),
    V6([u16; 8]),
}

/// A socket address. An IPv6 one also carries a scope id (0 for none).
#[derive(Clone, Copy, Debug, PartialEq, Eq)]
pub enum SocketAddress {
    V4 { ip: [u8; 4], port: u16 },
    V6 { ip: [u16; 8], port: u16, scope_id: u32 },
}

/// The mathematical value of an [`IpAddress`].
pub enum IpView {
    V4(Seq<u8>),
    V6(Seq<u16>),
}

/// The mathematical value of a [`SocketAddress`].
pub enum SocketView {
    V4 { ip: Seq<u8>, port: u16 },
    V6 { ip: Seq<u16>, port: u16, scope_id: u32 },
}

impl View for IpAddress {
    type V = IpView;

    open spec fn view(&self) -> IpView {
        match self {
            IpAddress::V4(o) => IpView::V4(o@),
            IpAddress::V6(g) => IpView::V6(g@),
        }
    }
}

impl View for SocketAddress {
    type V = SocketView;

    open spec fn view(&self) -> SocketView {
        match self {
            SocketAddress::V4 { ip, port } => SocketView::V4 { ip: ip@, port: *port },
            SocketAddress::V6 { ip, port, scope_id } => SocketView::V6 {
                ip: ip@,
                port: *port,
                scope_id: *scope_id,
            },
        }
    }
}

impl SocketView {
    pub open spec fn port(self) -> u16 {
        match self {
            SocketView::V4 { port, .. } => port,
            SocketView::V6 { port, .. } => port,
        }
    }

    pub open spec fn ip(self) -> IpView {
        match self {
            SocketView::V4 { ip, .. } => IpView::V4(ip),
            SocketView::V6 { ip, .. } => IpView::V6(ip),
        }
    }

    /// The address with its IP replaced. Within one family the scope id is
    /// kept; across families the result is a new address with scope id 0.
    pub open spec fn with_ip(self, ip: IpView) -> SocketView {
        match (self, ip) {
            (SocketView::V6 { port, scope_id, .. }, IpView::V6(g)) => SocketView::V6 {
                ip: g,
                port,
                scope_id,
            },
            (_, IpView::V4(o)) => SocketView::V4 { ip: o, port: self.port() },
            (_, IpView::V6(g)) => SocketView::V6 { ip: g, port: self.port(), scope_id: 0 },
        }
    }

    /// The address with its port replaced.
    pub open spec fn with_port(self, port: u16) -> SocketView {
        match self {
            SocketView::V4 { ip, .. } => SocketView::V4 { ip, port },
            SocketView::V6 { ip, scope_id, .. } => SocketView::V6 { ip, port, scope_id },
        }
    }
}

/// A `:` and a port number of any number of decimal digits.
pub open spec fn read_port(s: Seq<char>, p: int) -> Option<(nat, int)> {
    if char_at(s, p, ':') {
        read_number(s, p + 1, false, 0, true, 0xffff)
    } else {
        None
    }
}

/// A `%` and a scope id of any number of decimal digits.
pub open spec fn read_scope(s: Seq<char>, p: int) -> Option<(nat, int)> {
    if char_at(s, p, '%') {
        read_number(s, p + 1, false, 0, true, 0xffff_ffff)
    } else {
        None
    }
}

/// `a.b.c.d:port` at `p`.
pub open spec fn read_socket_v4(s: Seq<char>, p: int) -> Option<(SocketView, int)> {
    match read_ipv4(s, p) {
        None => None,
        Some((o, q)) => match read_port(s, q) {
            None => None,
            Some((port, e)) => Some((SocketView::V4 { ip: o, port: port as u16 }, e)),
        },
    }
}

/// `[groups]:port` or `[groups%scope]:port` at `p`.
pub open spec fn read_socket_v6(s: Seq<char>, p: int) -> Option<(SocketView, int)> {
    if !char_at(s, p, '[') {
        None
    } else {
        match read_ipv6(s, p + 1) {
            None => None,
            Some((g, q)) => {
                let (scope, q2) = match read_scope(s, q) {
                    Some((v, r)) => (v, r),
                    None => (0, q),
                };
                if !char_at(s, q2, ']') {
                    None
                } else {
                    match read_port(s, q2 + 1) {
                        None => None,
                        Some((port, e)) => Some(
                            (SocketView::V6 { ip: g, port: port as u16, scope_id: scope as u32 }, e),
                        ),
                    }
                }
            },
        }
    }
}

/// The socket address that the whole text `s` spells, if any. An IPv4 form
/// is tried first; only where none can be read at the start is the IPv6
/// form tried.
pub open spec fn socket_from_text(s: Seq<char>) -> Option<SocketView> {
    match read_socket_v4(s, 0) {
        Some((a, q)) => if q == s.len() {
            Some(a)
        } else {
            None
        },
        None => match read_socket_v6(s, 0) {
            Some((a, q)) => if q == s.len() {
                Some(a)
            } else {
                None
            },
            None => None,
        },
    }
}

/// The IP address that the whole text `s` spells, if any, IPv4 form first.
pub open spec fn ip_from_text(s: Seq<char>) -> Option<IpView> {
    match read_ipv4(s, 0) {
        Some((o, q)) => if q == s.len() {
            Some(IpView::V4(o))
        } else {
            None
        },
        None => match read_ipv6(s, 0) {
            Some((g, q)) => if q == s.len() {
                Some(IpView::V6(g))
            } else {
                None
            },
            None => None,
        },
    }
}

fn read_port_at(s: &Vec<char>, p: usize) -> (r: Option<(u64, usize)>)
    requires
        p <= s@.len(),
    ensures
        match read_port(s@, p as int) {
            None => r is None,
            Some((v, q)) => r is Some && r->Some_0.0 == v && r->Some_0.1 == q && v <= 0xffff && q
                <= s@.len(),
        },
{
    if p < s.len() && s[p] == ':' {
        read_number_at(s, p + 1, false, 0, true, 0xffff)
    } else {
        None
    }
}

fn read_scope_at(s: &Vec<char>, p: usize) -> (r: Option<(u64, usize)>)
    requires
        p <= s@.len(),
    ensures
        match read_scope(s@, p as int) {
            None => r is None,
            Some((v, q)) => r is Some && r->Some_0.0 == v && r->Some_0.1 == q && v <= 0xffff_ffff
                && q <= s@.len(),
        },
{
    if p < s.len() && s[p] == '%' {
        read_number_at(s, p + 1, false, 0, true, 0xffff_ffff)
    } else {
        None
    }
}

fn ipv4_array(o: &Vec<u8>) -> (r: [u8; 4])
    requires
        o@.len() == 4,
    ensures
        r@ == o@,
{
    let r: [u8; 4] = [o[0], o[1], o[2], o[3]];
    proof {
        assert(r@ =~= o@);
    }
    r
}

fn read_socket_v4_at(s: &Vec<char>, p: usize) -> (r: Option<(SocketAddress, usize)>)
    requires
        p <= s@.len(),
    ensures
        match read_socket_v4(s@, p as int) {
            None => r is None,
            Some((a, q)) => r is Some && r->Some_0.0@ == a && r->Some_0.1 == q,
        },
{
    proof {
        lemma_read_octets_len(s@, p as int, 0);
    }
    match read_octets_at(s, p, 0) {
        None => None,
        Some((o, q)) => match read_port_at(s, q) {
            None => None,
            Some((port, e)) => Some((SocketAddress::V4 { ip: ipv4_array(&o), port: port as u16 }, e)),
        },
    }
}

fn read_socket_v6_at(s: &Vec<char>, p: usize) -> (r: Option<(SocketAddress, usize)>)
    requires
        p <= s@.len(),
    ensures
        match read_socket_v6(s@, p as int) {
            None => r is None,
            Some((a, q)) => r is Some && r->Some_0.0@ == a && r->Some_0.1 == q,
        },
{
    if !(p < s.len() && s[p] == '[') {
        return None;
    }
    match read_ipv6_at(s, p + 1) {
        None => None,
        Some((g, q)) => {
            let (scope, q2) = match read_scope_at(s, q) {
                Some((v, r)) => (v, r),
                None => (0, q),
            };
            if !(q2 < s.len() && s[q2] == ']') {
                return None;
            }
            match read_port_at(s, q2 + 1) {
                None => None,
                Some((port, e)) => Some(
                    (SocketAddress::V6 { ip: g, port: port as u16, scope_id: scope as u32 }, e),
                ),
            }
        },
    }
}

/// The characters of `s`, one by one.
pub fn chars_of(s: &str) -> (r: Vec<char>)
    ensures
        r@ == s@,
{
    let n = s.unicode_len();
    let mut r: Vec<char> = Vec::new();
    let mut i: usize = 0;
    while i < n
        invariant
            n == s@.len(),
            i <= n,
            r@ == s@.subrange(0, i as int),
        decreases n - i,
    {
        r.push(s.get_char(i));
        i = i + 1;
        proof {
            assert(r@ =~= s@.subrange(0, i as int));
        }
    }
    proof {
        assert(r@ =~= s@);
    }
    r
}

/// Parses a whole string as a socket address (`a.b.c.d:port`,
/// `[v6]:port`, `[v6%scope]:port`).
pub fn parse_socket_address(text: &str) -> (r: Option<SocketAddress>)
    ensures
        match socket_from_text(text@) {
            None => r is None,
            Some(a) => r is Some && r->Some_0@ == a,
        },
{
    let s = chars_of(text);
    match read_socket_v4_at(&s, 0) {
        Some((a, q)) => if q == s.len() {
            Some(a)
        } else {
            None
        },
        None => match read_socket_v6_at(&s, 0) {
            Some((a, q)) => if q == s.len() {
                Some(a)
            } else {
                None
            },
            None => None,
        },
    }
}

/// Parses a whole string as an IPv4 or IPv6 address.
pub fn parse_ip_address(text: &str) -> (r: Option<IpAddress>)
    ensures
        match ip_from_text(text@) {
            None => r is None,
            Some(a) => r is Some && r->Some_0@ == a,
        },
{
    let s = chars_of(text);
    proof {
        lemma_read_octets_len(s@, 0, 0);
    }
    match read_octets_at(&s, 0, 0) {
        Some((o, q)) => if q == s.len() {
            Some(IpAddress::V4(ipv4_array(&o)))
        } else {
            None
        },
        None => match read_ipv6_at(&s, 0) {
            Some((g, q)) => if q == s.len() {
                Some(IpAddress::V6(g))
            } else {
                None
            },
            None => None,
        },
    }
}

impl SocketAddress {
    pub fn port(&self) -> (r: u16)
        ensures
            r == self@.port(),
    {
        match self {
            SocketAddress::V4 { port, .. } => *port,
            SocketAddress::V6 { port, .. } => *port,
        }
    }

    pub fn ip(&self) -> (r: IpAddress)
        ensures
            r@ == self@.ip(),
    {
        match self {
            SocketAddress::V4 { ip, .. } => IpAddress::V4(*ip),
            SocketAddress::V6 { ip, .. } => IpAddress::V6(*ip),
        }
    }

    /// Replaces the IP address; the port stays.
    pub fn set_ip(&mut self, new_ip: IpAddress)
        ensures
            final(self)@ == old(self)@.with_ip(new_ip@),
    {
        let port = self.port();
        *self = match (*self, new_ip) {
            (SocketAddress::V6 { scope_id, .. }, IpAddress::V6(g)) => SocketAddress::V6 {
                ip: g,
                port,
                scope_id,
            },
            (_, IpAddress::V4(o)) => SocketAddress::V4 { ip: o, port },
            (_, IpAddress::V6(g)) => SocketAddress::V6 { ip: g, port, scope_id: 0 },
        };
    }

    /// Replaces the port; the IP address stays.
    pub fn set_port(&mut self, new_port: u16)
        ensures
            final(self)@ == old(self)@.with_port(new_port),
    {
        match self {
            SocketAddress::V4 { port, .. } => *port = new_port,
            SocketAddress::V6 { port, .. } => *port = new_port,
        }
    }
}

} // verus!
