//! LAN discovery of Tapo devices: which probed hosts look like a Tapo
//! embedded server, and the order they are reported in. (Scanning the /24 is
//! done by the application.)

use vstd::prelude::*;

use crate::text::{
    ascii_lower, chars_of, parse_unsigned, parse_unsigned_spec, range_starts_with, rfind_char,
    rfind_char_from, spec_utf8_lossy, to_ascii_lower, utf8_lossy,
};

verus! {

/// A host that answered like a Tapo device.
pub struct Discovered {
    pub ip: String,
    /// True if `/app/handshake1` exists (KLAP local API present).
    pub klap: bool,
}

/// The ASCII lower case of a string (`str::to_ascii_lowercase`).
pub open spec fn ascii_lower_seq(s: Seq<char>) -> Seq<char> {
    Seq::new(s.len(), |i: int| ascii_lower(s[i]))
}

/// `pat` occurs in `s` (`str::contains`).
pub open spec fn contains_seq(s: Seq<char>, pat: Seq<char>) -> bool {
    exists|i: int| 0 <= i && i + pat.len() <= s.len() && #[trigger] s.subrange(i, i + pat.len()) == pat
}

/// `server: ship`, the banner of the Tapo embedded HTTP server.
pub open spec fn ship_banner() -> Seq<char> {
    seq!['s', 'e', 'r', 'v', 'e', 'r', ':', ' ', 's', 'h', 'i', 'p']
}

/// Whether the start of a host's reply to `GET /` (`head`, as read) names
/// the Tapo server: its text, lower-cased, contains `server: ship`.
pub fn is_tapo_banner(head: &[u8]) -> (r: bool)
    ensures
        r == contains_seq(ascii_lower_seq(spec_utf8_lossy(head@)), ship_banner()),
{
    let text = utf8_lossy(head);
    let cs = chars_of(text.as_str());
    let mut low: Vec<char> = Vec::new();
    let n = cs.len();
    for i in 0..n
        invariant
            n == cs@.len(),
            low@ =~= ascii_lower_seq(cs@).subrange(0, i as int),
    {
        low.push(to_ascii_lower(cs[i]));
    }
    let ghost s = ascii_lower_seq(spec_utf8_lossy(head@));
    assert(low@ =~= s);
    let pat = vec!['s', 'e', 'r', 'v', 'e', 'r', ':', ' ', 's', 'h', 'i', 'p'];
    assert(pat@ =~= ship_banner());
    let m = pat.len();
    if n < m {
        return false;
    }
    let mut i: usize = 0;
    while i <= n - m
        invariant
            n == low@.len(),
            m == pat@.len(),
            m <= n,
            low@ == s,
            s == ascii_lower_seq(spec_utf8_lossy(head@)),
            pat@ == ship_banner(),
            forall|j: int| 0 <= j < i ==> #[trigger] s.subrange(j, j + m) != pat@,
        decreases n - m + 1 - i,
    {
        if range_starts_with(&low, i, n, &pat) {
            assert(low@.subrange(i as int, i + m) == pat@);
            assert(s.subrange(i as int, i + m) == ship_banner());
            assert(contains_seq(s, ship_banner()));
            return true;
        }
        i = i + 1;
    }
    proof {
        assert forall|j: int| 0 <= j && j + m <= s.len() implies #[trigger] s.subrange(j, j + m)
            != ship_banner() by {
            assert(j < i);
        }
    }
    false
}

/// Statuses of `/app/handshake1` that show the KLAP local API exists.
pub fn klap_endpoint_status(status: u16) -> (r: bool)
    ensures
        r == (status == 200 || status == 400 || status == 403),
{
    status == 200 || status == 400 || status == 403
}

/// The sort key of an address: its last dot-separated part read as a `u8`,
/// or 0 when it is not one.
pub open spec fn octet_key_spec(ip: Seq<char>) -> nat {
    let tail = match rfind_char_from(ip, '.', ip.len() as int) {
        Some(i) => ip.subrange(i + 1, ip.len() as int),
        None => ip,
    };
    match parse_unsigned_spec(tail, 255) {
        Some(v) => v,
        None => 0,
    }
}

/// The sort key of an address (see `octet_key_spec`).
pub fn octet_key(ip: &str) -> (r: u8)
    ensures
        r as nat == octet_key_spec(ip@),
{
    let cs = chars_of(ip);
    let start = match rfind_char(&cs, '.') {
        Some(i) => i + 1,
        None => 0,
    };
    assert(cs@.subrange(0, cs@.len() as int) =~= cs@);
    proof {
        if start > 0 {
            assert(start - 1 < cs@.len());
        }
    }
    match parse_unsigned(&cs, start, cs.len(), 255) {
        Some(v) => v as u8,
        None => 0,
    }
}

/// The view of a discovered host: its address and whether KLAP is present.
pub open spec fn entry_view(d: Discovered) -> (Seq<char>, bool) {
    (d.ip@, d.klap)
}

/// The views of a list of discovered hosts.
pub open spec fn entries_view(v: Seq<Discovered>) -> Seq<(Seq<char>, bool)> {
    v.map_values(|d: Discovered| entry_view(d))
}

/// The entries whose key is `k`, in the order they were given.
pub open spec fn octet_bucket(s: Seq<(Seq<char>, bool)>, k: nat) -> Seq<(Seq<char>, bool)> {
    s.filter(|e: (Seq<char>, bool)| octet_key_spec(e.0) == k)
}

/// The entries with keys below `k`, ordered by key, stably.
pub open spec fn buckets_below(s: Seq<(Seq<char>, bool)>, k: nat) -> Seq<(Seq<char>, bool)>
    decreases k,
{
    if k == 0 {
        Seq::empty()
    } else {
        buckets_below(s, (k - 1) as nat) + octet_bucket(s, (k - 1) as nat)
    }
}

/// The entries stably sorted by the last octet of their address
/// (`sort_by_key`, which is stable).
pub open spec fn sorted_by_octet(s: Seq<(Seq<char>, bool)>) -> Seq<(Seq<char>, bool)> {
    buckets_below(s, 256)
}

impl Discovered {
    /// A copy of this entry.
    pub fn duplicate(&self) -> (r: Discovered)
        ensures
            entry_view(r) == entry_view(*self),
    {
        Discovered { ip: self.ip.clone(), klap: self.klap }
    }
}

/// The discovered hosts in a stable order by the last octet of their address.
pub fn sort_by_last_octet(found: Vec<Discovered>) -> (r: Vec<Discovered>)
    ensures
        entries_view(r@) == sorted_by_octet(entries_view(found@)),
{
    let n = found.len();
    let ghost s = entries_view(found@);
    let mut keys: Vec<u8> = Vec::new();
    for i in 0..n
        invariant
            n == found@.len(),
            s == entries_view(found@),
            keys@.len() == i,
            forall|j: int| 0 <= j < i ==> #[trigger] keys@[j] as nat == octet_key_spec(s[j].0),
    {
        keys.push(octet_key(found[i].ip.as_str()));
    }
    let mut out: Vec<Discovered> = Vec::new();
    let mut k: u32 = 0;
    assert(entries_view(out@) =~= buckets_below(s, 0));
    while k < 256
        invariant
            k <= 256,
            n == found@.len(),
            s == entries_view(found@),
            keys@.len() == n,
            forall|j: int| 0 <= j < n ==> #[trigger] keys@[j] as nat == octet_key_spec(s[j].0),
            entries_view(out@) == buckets_below(s, k as nat),
        decreases 256 - k,
    {
        let ghost pred = |e: (Seq<char>, bool)| octet_key_spec(e.0) == k as nat;
        let ghost before = entries_view(out@);
        assert(s.subrange(0, 0).filter(pred) =~= Seq::<(Seq<char>, bool)>::empty());
        assert(entries_view(out@) =~= before + s.subrange(0, 0).filter(pred));
        for i in 0..n
            invariant
                k < 256,
                n == found@.len(),
                s == entries_view(found@),
                keys@.len() == n,
                forall|j: int| 0 <= j < n ==> #[trigger] keys@[j] as nat == octet_key_spec(s[j].0),
                pred == (|e: (Seq<char>, bool)| octet_key_spec(e.0) == k as nat),
                entries_view(out@) == before + s.subrange(0, i as int).filter(pred),
        {
            let ghost prev = out@;
            let ghost sub = s.subrange(0, i + 1);
            proof {
                reveal_with_fuel(Seq::filter, 1);
            }
            assert(sub.drop_last() =~= s.subrange(0, i as int));
            assert(sub.last() == s[i as int]);
            assert(s[i as int] == entry_view(found@[i as int]));
            if keys[i] as u32 == k {
                let d = found[i].duplicate();
                out.push(d);
                assert(pred(s[i as int]));
                assert(sub.filter(pred) == s.subrange(0, i as int).filter(pred).push(s[i as int]));
                assert(entries_view(out@) =~= entries_view(prev).push(entry_view(d)));
                assert(entries_view(out@) =~= before + sub.filter(pred));
            } else {
                assert(!pred(s[i as int]));
                assert(sub.filter(pred) == s.subrange(0, i as int).filter(pred));
                assert(entries_view(out@) =~= entries_view(prev));
            }
        }
        assert(s.subrange(0, n as int) =~= s);
        assert(octet_bucket(s, k as nat) == s.filter(pred));
        k = k + 1;
    }
    out
}

proof fn lemma_buckets_sorted(s: Seq<(Seq<char>, bool)>, k: nat)
    ensures
        forall|i: int|
            0 <= i < buckets_below(s, k).len() ==> octet_key_spec(#[trigger] buckets_below(s, k)[i].0) < k,
        forall|i: int, j: int|
            0 <= i < j < buckets_below(s, k).len() ==> octet_key_spec(#[trigger] buckets_below(s, k)[i].0)
                <= octet_key_spec(#[trigger] buckets_below(s, k)[j].0),
    decreases k,
{
    if k > 0 {
        let km = (k - 1) as nat;
        lemma_buckets_sorted(s, km);
        let a = buckets_below(s, km);
        let pred = |e: (Seq<char>, bool)| octet_key_spec(e.0) == km;
        let b = s.filter(pred);
        assert(buckets_below(s, k) == a + b);
        assert forall|i: int| 0 <= i < b.len() implies octet_key_spec(#[trigger] b[i].0) == km by {
            s.lemma_filter_pred(pred, i);
        }
        let c = a + b;
        assert forall|i: int| 0 <= i < c.len() implies octet_key_spec(#[trigger] c[i].0) < k by {
            if i < a.len() {
                assert(c[i] == a[i]);
            } else {
                assert(c[i] == b[i - a.len()]);
            }
        }
        assert forall|i: int, j: int| 0 <= i < j < c.len() implies octet_key_spec(#[trigger] c[i].0)
            <= octet_key_spec(#[trigger] c[j].0) by {
            if j < a.len() {
                assert(c[i] == a[i] && c[j] == a[j]);
            } else if i < a.len() {
                assert(c[i] == a[i] && c[j] == b[j - a.len()]);
            } else {
                assert(c[i] == b[i - a.len()] && c[j] == b[j - a.len()]);
            }
        }
    }
}

/// The reported hosts are in non-decreasing order of the last octet of
/// their address.
pub proof fn law_discovered_sorted_by_octet(s: Seq<(Seq<char>, bool)>)
    ensures
        forall|i: int, j: int|
            0 <= i < j < sorted_by_octet(s).len() ==> octet_key_spec(#[trigger] sorted_by_octet(s)[i].0)
                <= octet_key_spec(#[trigger] sorted_by_octet(s)[j].0),
{
    lemma_buckets_sorted(s, 256);
}

} // verus!
