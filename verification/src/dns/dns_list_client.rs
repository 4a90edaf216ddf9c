//! The catalogue of public DNS resolvers, fetched per country.

use vstd::prelude::*;
use crate::dns::dns_server::DnsServer;
use crate::errors::concat_str;
use crate::utils::ip_addr::{ip_text, lemma_ip_text_injective};

verus! {

/// Client of the public DNS resolver list, e.g.
/// `https://public-dns.info/nameserver`.
pub struct Client {
    base_url: String,
}

impl Client {
    /// The base URL the client fetches from.
    pub closed spec fn base(&self) -> Seq<char> {
        self.base_url@
    }

    /// Create a new client with the provided base URL.
    pub fn new(base_url: &str) -> (r: Client)
        ensures
            r.base() == base_url@,
    {
        Client { base_url: base_url.to_owned() }
    }

    /// The URL of the resolver list of one country: the base URL, a slash,
    /// the country code and `.json`.
    pub fn server_list_url(&self, country_code: &str) -> (r: String)
        ensures
            r@ == self.base() + "/"@ + country_code@ + ".json"@,
    {
        let mut url = concat_str(self.base_url.as_str(), "/");
        url.append(country_code);
        url.append(".json");
        url
    }
}

/// The key a resolver is indexed by: the text of its address.
pub open spec fn address_key(server: DnsServer) -> Seq<char> {
    ip_text(server.ip)
}

/// Resolvers share a key exactly when they share an address: the key is the
/// full text of the address, which reads back as that address.
pub proof fn lemma_address_key_identifies_address(a: DnsServer, b: DnsServer)
    ensures
        address_key(a) == address_key(b) <==> a.ip == b.ip,
{
    if address_key(a) == address_key(b) {
        lemma_ip_text_injective(a.ip, b.ip);
    }
}

/// No later resolver in the list has the key of the resolver at `k`.
pub open spec fn last_with_key(s: Seq<DnsServer>, k: int) -> bool {
    forall|j: int| k < j < s.len() ==> address_key(s[j]) != address_key(s[k])
}

/// Among the first `n` resolvers of the list, those that no later resolver
/// shares a key with, in list order.
pub open spec fn last_per_key(s: Seq<DnsServer>, n: int) -> Seq<DnsServer>
    decreases n,
{
    if n <= 0 {
        seq![]
    } else if last_with_key(s, n - 1) {
        last_per_key(s, n - 1).push(s[n - 1])
    } else {
        last_per_key(s, n - 1)
    }
}

/// Every resolver has a last resolver with the same key at or after it.
pub proof fn lemma_last_occurrence_exists(s: Seq<DnsServer>, k: int)
    requires
        0 <= k < s.len(),
    ensures
        exists|m: int|
            k <= m < s.len() && address_key(s[m]) == address_key(s[k]) && last_with_key(s, m),
    decreases s.len() - k,
{
    if !last_with_key(s, k) {
        let j = choose|j: int| k < j < s.len() && address_key(s[j]) == address_key(s[k]);
        lemma_last_occurrence_exists(s, j);
        let m = choose|m: int|
            j <= m < s.len() && address_key(s[m]) == address_key(s[j]) && last_with_key(s, m);
        assert(k <= m < s.len() && address_key(s[m]) == address_key(s[k]) && last_with_key(s, m));
    } else {
        assert(k <= k < s.len() && address_key(s[k]) == address_key(s[k]) && last_with_key(s, k));
    }
}

/// Whether a key after position `k` equals the one at `k`.
fn listed_again_later(keys: &Vec<String>, k: usize) -> (r: bool)
    requires
        k < keys@.len(),
    ensures
        r == exists|j: int| k < j < keys@.len() && keys@[j]@ == keys@[k as int]@,
{
    let n = keys.len();
    let mut j = k + 1;
    while j < n
        invariant
            n == keys@.len(),
            k < n,
            k + 1 <= j <= n,
            forall|jj: int| k < jj < j ==> keys@[jj]@ != keys@[k as int]@,
        decreases n - j,
    {
        if keys[j] == keys[k] {
            return true;
        }
        j = j + 1;
    }
    false
}

/// The keys of a resolver list, in order.
fn address_keys(servers: &Vec<DnsServer>) -> (r: Vec<String>)
    ensures
        r@.len() == servers@.len(),
        forall|i: int| 0 <= i < r@.len() ==> #[trigger] r@[i]@ == address_key(servers@[i]),
{
    let mut keys: Vec<String> = Vec::new();
    let n = servers.len();
    let mut i: usize = 0;
    while i < n
        invariant
            n == servers@.len(),
            0 <= i <= n,
            keys@.len() == i,
            forall|t: int| 0 <= t < i ==> #[trigger] keys@[t]@ == address_key(servers@[t]),
        decreases n - i,
    {
        keys.push(servers[i].ip.to_text());
        i = i + 1;
    }
    keys
}

/// Indexes a country's resolver list by the text of each resolver's address,
/// the way a map from that text to the resolver is filled in list order: for
/// each key only the last resolver listed with it remains.  The entries keep
/// list order, hold one resolver per key, and cover every key of the list.
pub fn index_by_address(servers: &Vec<DnsServer>) -> (r: Vec<(String, DnsServer)>)
    ensures
        r@.len() == last_per_key(servers@, servers@.len() as int).len(),
        forall|i: int|
            #![trigger r@[i]]
            0 <= i < r@.len() ==> r@[i].1 == last_per_key(servers@, servers@.len() as int)[i]
                && r@[i].0@ == address_key(r@[i].1),
        forall|i: int, j: int| 0 <= i < j < r@.len() ==> r@[i].0@ != r@[j].0@,
        forall|k: int|
            #![trigger servers@[k]]
            0 <= k < servers@.len() ==> exists|i: int|
                0 <= i < r@.len() && (#[trigger] r@[i]).0@ == address_key(servers@[k]),
        forall|k: int|
            #![trigger servers@[k]]
            0 <= k < servers@.len() ==> exists|i: int|
                0 <= i < r@.len() && (#[trigger] r@[i]).1.ip == servers@[k].ip,
        forall|i: int, j: int| 0 <= i < j < r@.len() ==> r@[i].1.ip != r@[j].1.ip,
{
    let keys = address_keys(servers);
    let n = servers.len();
    let mut out: Vec<(String, DnsServer)> = Vec::new();
    let ghost mut idx: Seq<int> = seq![];
    let mut k: usize = 0;
    while k < n
        invariant
            n == servers@.len(),
            keys@.len() == n,
            forall|t: int| 0 <= t < n ==> #[trigger] keys@[t]@ == address_key(servers@[t]),
            0 <= k <= n,
            out@.len() == last_per_key(servers@, k as int).len(),
            forall|i: int|
                #![trigger out@[i]]
                0 <= i < out@.len() ==> out@[i].1 == last_per_key(servers@, k as int)[i]
                    && out@[i].0@ == address_key(out@[i].1),
            idx.len() == out@.len(),
            forall|i: int|
                #![trigger idx[i]]
                0 <= i < idx.len() ==> 0 <= idx[i] < k && out@[i].1 == servers@[idx[i]]
                    && last_with_key(servers@, idx[i]),
            forall|i: int, j: int| 0 <= i < j < idx.len() ==> idx[i] < idx[j],
            forall|kk: int|
                0 <= kk < k && last_with_key(servers@, kk) ==> #[trigger] idx.contains(kk),
        decreases n - k,
    {
        let again = listed_again_later(&keys, k);
        proof {
            if !again {
                assert forall|j: int| k < j < servers@.len() implies address_key(servers@[j])
                    != address_key(servers@[k as int]) by {
                    assert(keys@[j]@ == address_key(servers@[j]));
                }
            } else {
                let j = choose|j: int| k < j < keys@.len() && keys@[j]@ == keys@[k as int]@;
                assert(keys@[j]@ == address_key(servers@[j]));
            }
        }
        let ghost before = out@;
        if !again {
            out.push((keys[k].clone(), servers[k].clone()));
            proof {
                let prev = idx;
                idx = idx.push(k as int);
                assert(idx.drop_last() =~= prev);
                assert forall|kk: int|
                    0 <= kk < k + 1 && last_with_key(servers@, kk) implies #[trigger] idx.contains(
                    kk,
                ) by {
                    if kk == k {
                        assert(idx[idx.len() - 1] == kk);
                    } else {
                        assert(prev.contains(kk));
                        let t = choose|t: int| 0 <= t < prev.len() && prev[t] == kk;
                        assert(idx[t] == kk);
                    }
                }
                assert forall|i: int| #![trigger out@[i]] 0 <= i < out@.len() implies out@[i].1
                    == last_per_key(servers@, k + 1)[i] && out@[i].0@ == address_key(out@[i].1) by {
                    if i < before.len() {
                        assert(out@[i] == before[i]);
                    }
                }
            }
        }
        k = k + 1;
    }
    assert forall|i: int, j: int| 0 <= i < j < out@.len() implies out@[i].0@ != out@[j].0@ by {
        assert(idx[i] < idx[j]);
        assert(last_with_key(servers@, idx[i]));
    }
    assert forall|kk: int| #![trigger servers@[kk]] 0 <= kk < servers@.len() implies exists|i: int|
        0 <= i < out@.len() && (#[trigger] out@[i]).0@ == address_key(servers@[kk]) by {
        lemma_last_occurrence_exists(servers@, kk);
        let m = choose|m: int|
            kk <= m < servers@.len() && address_key(servers@[m]) == address_key(servers@[kk])
                && last_with_key(servers@, m);
        assert(idx.contains(m));
        let i = choose|i: int| 0 <= i < idx.len() && idx[i] == m;
        assert(out@[i].0@ == address_key(servers@[kk]));
    }
    assert forall|kk: int| #![trigger servers@[kk]] 0 <= kk < servers@.len() implies exists|i: int|
        0 <= i < out@.len() && (#[trigger] out@[i]).1.ip == servers@[kk].ip by {
        let i = choose|i: int| 0 <= i < out@.len() && (#[trigger] out@[i]).0@ == address_key(servers@[kk]);
        assert(out@[i].0@ == address_key(out@[i].1));
        lemma_address_key_identifies_address(out@[i].1, servers@[kk]);
    }
    assert forall|i: int, j: int| 0 <= i < j < out@.len() implies out@[i].1.ip != out@[j].1.ip by {
        assert(out@[i].0@ == address_key(out@[i].1));
        assert(out@[j].0@ == address_key(out@[j].1));
        lemma_address_key_identifies_address(out@[i].1, out@[j].1);
    }
    out
}

} // verus!
