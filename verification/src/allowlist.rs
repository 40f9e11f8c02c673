//! The destination allowlist: an optional ordered list of allowed-host
//! patterns. A pattern admits a candidate by exact string equality, or,
//! for `network/suffix` patterns, by comparing whole dot-separated
//! address segments (a dot-aligned approximation of CIDR matching, not
//! bitwise masking). No allowlist at all means every destination is
//! allowed.

use vstd::prelude::*;

use crate::text::eq_str;
use crate::text::split_on;
use crate::text::split_spec;

verus! {

/// Whether the pattern `p` admits the candidate host `ip`.
///
/// Either the two strings are equal, or `p` has the form
/// `network/suffix` (exactly one slash; the suffix is ignored), the
/// network part has at least three dot-separated segments, the
/// candidate has exactly four, and all but the last network segment —
/// at most four of them — equal the leading candidate segments one for
/// one.
pub open spec fn pattern_matches(p: Seq<char>, ip: Seq<char>) -> bool {
    ||| p == ip
    ||| {
        let slash_parts = split_spec(p, '/');
        &&& slash_parts.len() == 2
        &&& {
            let net_parts = split_spec(slash_parts[0], '.');
            let ip_parts = split_spec(ip, '.');
            &&& net_parts.len() >= 3
            &&& ip_parts.len() == 4
            &&& net_parts.len() - 1 <= ip_parts.len()
            &&& net_parts.take(net_parts.len() - 1) == ip_parts.take(net_parts.len() - 1)
        }
    }
}

/// Whether some pattern of the list `ps` admits the candidate `ip`.
pub open spec fn any_pattern_matches(ps: Seq<Seq<char>>, ip: Seq<char>) -> bool {
    exists|k: int| 0 <= k < ps.len() && #[trigger] pattern_matches(ps[k], ip)
}

/// Whether the candidate host `ip` is allowed: unconditionally when no
/// allowlist is configured, otherwise exactly when some pattern of the
/// list admits it.
pub open spec fn is_allowed_spec(patterns: Option<Seq<Seq<char>>>, ip: Seq<char>) -> bool {
    match patterns {
        None => true,
        Some(ps) => any_pattern_matches(ps, ip),
    }
}

/// With no allowlist configured, every candidate string is allowed.
pub proof fn lemma_no_allowlist_allows_all(patterns: Option<Seq<Seq<char>>>, ip: Seq<char>)
    requires
        patterns is None,
    ensures
        is_allowed_spec(patterns, ip),
{
}

proof fn lemma_match_found(ps: Seq<Seq<char>>, ip: Seq<char>, k: int)
    requires
        0 <= k < ps.len(),
        pattern_matches(ps[k], ip),
    ensures
        is_allowed_spec(Some(ps), ip),
{
    assert(any_pattern_matches(ps, ip)) by {
        assert(exists|m: int| 0 <= m < ps.len() && #[trigger] pattern_matches(ps[m], ip));
    }
}

fn pattern_matches_exec(p: &str, ip: &str) -> (r: bool)
    ensures
        r == pattern_matches(p@, ip@),
{
    if eq_str(p, ip) {
        return true;
    }
    let slash_parts = split_on(p, '/');
    if slash_parts.len() != 2 {
        return false;
    }
    let net_parts = split_on(slash_parts[0].as_str(), '.');
    let ip_parts = split_on(ip, '.');
    if net_parts.len() < 3 || ip_parts.len() != 4 {
        return false;
    }
    let k = net_parts.len() - 1;
    if k > ip_parts.len() {
        return false;
    }
    let ghost nv = net_parts.deep_view();
    let ghost iv = ip_parts.deep_view();
    let mut j: usize = 0;
    while j < k
        invariant
            p@ != ip@,
            split_spec(p@, '/').len() == 2,
            nv == split_spec(split_spec(p@, '/')[0], '.'),
            iv == split_spec(ip@, '.'),
            nv.len() >= 3,
            iv.len() == 4,
            k + 1 == nv.len(),
            k <= iv.len(),
            j <= k,
            net_parts.deep_view() == nv,
            ip_parts.deep_view() == iv,
            k < net_parts@.len(),
            k <= ip_parts@.len(),
            forall|m: int| 0 <= m < j ==> nv[m] == iv[m],
        decreases k - j,
    {
        proof {
            assert(net_parts.deep_view()[j as int] == net_parts@[j as int]@);
            assert(ip_parts.deep_view()[j as int] == ip_parts@[j as int]@);
        }
        if !eq_str(net_parts[j].as_str(), ip_parts[j].as_str()) {
            proof {
                assert(nv[j as int] != iv[j as int]);
                assert(nv.take(k as int)[j as int] != iv.take(k as int)[j as int]);
                assert(nv.take(k as int) != iv.take(k as int));
            }
            return false;
        }
        j += 1;
    }
    proof {
        assert(nv.take(k as int) =~= iv.take(k as int));
    }
    true
}

/// The process-wide relay configuration: an optional ordered allowlist
/// of destination host patterns, built once at startup and never
/// changed afterwards.
pub struct ProxyConfig {
    pub allowed_hosts: Option<Vec<String>>,
}

impl View for ProxyConfig {
    type V = Option<Seq<Seq<char>>>;

    open spec fn view(&self) -> Option<Seq<Seq<char>>> {
        match self.allowed_hosts {
            None => None,
            Some(hosts) => Some(hosts.deep_view()),
        }
    }
}

impl ProxyConfig {
    /// Builds the configuration from an already-parsed pattern list;
    /// `None` means no restriction.
    pub fn new(allowed_hosts: Option<Vec<String>>) -> (r: ProxyConfig)
        ensures
            r@ == (match allowed_hosts {
                None => None::<Seq<Seq<char>>>,
                Some(hosts) => Some(hosts.deep_view()),
            }),
    {
        ProxyConfig { allowed_hosts }
    }

    /// Decides whether `ip` is an allowed relay destination: evaluates
    /// the patterns in list order and accepts on the first match;
    /// accepts everything when no allowlist is configured.
    pub fn is_allowed_host(&self, ip: &str) -> (r: bool)
        ensures
            r == is_allowed_spec(self@, ip@),
    {
        match &self.allowed_hosts {
            None => true,
            Some(allowed) => {
                let ghost ps = allowed.deep_view();
                let n = allowed.len();
                let mut k: usize = 0;
                while k < n
                    invariant
                        n == allowed@.len(),
                        k <= n,
                        ps == allowed.deep_view(),
                        self@ == Some(ps),
                        forall|m: int| 0 <= m < k ==> !pattern_matches(ps[m], ip@),
                    decreases n - k,
                {
                    proof {
                        assert(ps[k as int] == allowed@[k as int]@);
                    }
                    if pattern_matches_exec(allowed[k].as_str(), ip) {
                        proof {
                            lemma_match_found(ps, ip@, k as int);
                        }
                        return true;
                    }
                    k += 1;
                }
                false
            },
        }
    }
}

} // verus!
