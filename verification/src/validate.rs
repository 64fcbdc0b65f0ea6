//! Structural checks on a routing table.
//!
//! A table is consistent when no upstream name and no listen address stands
//! twice and every upstream that a server refers to exists. The checks run in
//! a fixed order and the first violation is the one reported: the upstream
//! names first, then the listen addresses of all servers, then the upstreams
//! that the servers refer to.

use crate::config::{
    ConfigError, ParsedConfig, ParsedConfigView, Rejection, ServerConfig, ServerConfigView,
    Upstream, UpstreamView, is_builtin, is_builtin_name, upstream_views,
};
use crate::consistency::{consistent, lemma_verdict_none_iff_consistent};
use crate::search::{first_index, lemma_first_index_is, lemma_first_index_none};
use crate::text::{contains_text, texts};
use vstd::prelude::*;

verus! {

/// The names of a table's entries, in order.
pub open spec fn upstream_names(table: Seq<(Seq<char>, UpstreamView)>) -> Seq<Seq<char>> {
    table.map_values(|e: (Seq<char>, UpstreamView)| e.0)
}

/// Whether the item at `j` also stands at an earlier position.
pub open spec fn repeats(items: Seq<Seq<char>>, j: int) -> bool {
    items.take(j).contains(items[j])
}

/// `repeats` as a predicate on positions.
pub open spec fn repeats_in(items: Seq<Seq<char>>) -> spec_fn(int) -> bool {
    |j: int| repeats(items, j)
}

/// The listen addresses of the first `k` servers, in order.
pub open spec fn listens_before(servers: Seq<(Seq<char>, ServerConfigView)>, k: int) -> Seq<
    Seq<char>,
>
    decreases k,
{
    if k <= 0 {
        Seq::empty()
    } else {
        listens_before(servers, k - 1) + servers[k - 1].1.listen
    }
}

/// The upstream names that the SNI entries of a server select. They count
/// only where TLS is enabled.
pub open spec fn sni_targets(server: ServerConfigView) -> Seq<Seq<char>> {
    if server.tls == Some(true) && server.sni is Some {
        server.sni->0.map_values(|e: (Seq<char>, Seq<char>)| e.1)
    } else {
        Seq::empty()
    }
}

/// The upstream names that a server refers to: the targets of its SNI
/// entries, then its default.
pub open spec fn references(server: ServerConfigView) -> Seq<Seq<char>> {
    match server.default {
        Some(name) => sni_targets(server).push(name),
        None => sni_targets(server),
    }
}

/// The references of the first `k` servers, in order.
pub open spec fn references_before(servers: Seq<(Seq<char>, ServerConfigView)>, k: int) -> Seq<
    Seq<char>,
>
    decreases k,
{
    if k <= 0 {
        Seq::empty()
    } else {
        references_before(servers, k - 1) + references(servers[k - 1].1)
    }
}

/// The positions of `refs` that name no entry of `names`.
pub open spec fn missing_in(names: Seq<Seq<char>>, refs: Seq<Seq<char>>) -> spec_fn(int) -> bool {
    |j: int| !names.contains(refs[j])
}

/// The first violation of a routing table, if it has one: the first upstream
/// name that repeats an earlier one; else the first listen address that was
/// declared before, by the same server or by an earlier one; else the first
/// reference of a server to an upstream that the table lacks.
pub open spec fn verdict(config: ParsedConfigView) -> Option<Rejection> {
    let names = upstream_names(config.upstream);
    let listens = listens_before(config.servers, config.servers.len() as int);
    let refs = references_before(config.servers, config.servers.len() as int);
    let d = first_index(names.len(), repeats_in(names));
    let l = first_index(listens.len(), repeats_in(listens));
    let r = first_index(refs.len(), missing_in(names, refs));
    if d < names.len() {
        Some(Rejection::DuplicateUpstream(names[d]))
    } else if l < listens.len() {
        Some(Rejection::DuplicateListen(listens[l]))
    } else if r < refs.len() {
        Some(Rejection::UpstreamNotFound(refs[r]))
    } else {
        None
    }
}

/// The listen addresses of the first `k` servers are the start of those of
/// the first `n`, for `k` up to `n`.
pub proof fn lemma_listens_prefix(servers: Seq<(Seq<char>, ServerConfigView)>, k: int, n: int)
    requires
        0 <= k <= n,
    ensures
        listens_before(servers, k).len() <= listens_before(servers, n).len(),
        listens_before(servers, n).take(listens_before(servers, k).len() as int)
            == listens_before(servers, k),
    decreases n - k,
{
    let short = listens_before(servers, k);
    let long = listens_before(servers, n);
    if k < n {
        lemma_listens_prefix(servers, k, n - 1);
        assert(long.take(short.len() as int) =~= listens_before(servers, n - 1).take(
            short.len() as int,
        ));
    } else {
        assert(long.take(short.len() as int) =~= short);
    }
}

/// The references of the first `k` servers are the start of those of the
/// first `n`, for `k` up to `n`.
pub proof fn lemma_references_prefix(servers: Seq<(Seq<char>, ServerConfigView)>, k: int, n: int)
    requires
        0 <= k <= n,
    ensures
        references_before(servers, k).len() <= references_before(servers, n).len(),
        references_before(servers, n).take(references_before(servers, k).len() as int)
            == references_before(servers, k),
    decreases n - k,
{
    let short = references_before(servers, k);
    let long = references_before(servers, n);
    if k < n {
        lemma_references_prefix(servers, k, n - 1);
        assert(long.take(short.len() as int) =~= references_before(servers, n - 1).take(
            short.len() as int,
        ));
    } else {
        assert(long.take(short.len() as int) =~= short);
    }
}

/// Whether a position repeats an earlier one does not depend on what comes
/// after it.
pub proof fn lemma_repeats_in_prefix(short: Seq<Seq<char>>, long: Seq<Seq<char>>, j: int)
    requires
        0 <= j < short.len() <= long.len(),
        long.take(short.len() as int) == short,
    ensures
        repeats(short, j) == repeats(long, j),
{
    assert(short.take(j) =~= long.take(j));
    assert(short[j] == long.take(short.len() as int)[j]);
}

/// Whether the name of entry `j` is also the name of an earlier entry.
fn name_repeats(table: &Vec<(String, Upstream)>, j: usize) -> (found: bool)
    requires
        j < table.len(),
    ensures
        found == repeats(upstream_names(upstream_views(table@)), j as int),
{
    let ghost names = upstream_names(upstream_views(table@));
    let mut i: usize = 0;
    while i < j
        invariant
            i <= j < table.len(),
            names == upstream_names(upstream_views(table@)),
            forall|h: int| 0 <= h < i ==> names[h] != names[j as int],
        decreases j - i,
    {
        if table[i].0 == table[j].0 {
            assert(names.take(j as int)[i as int] == names[j as int]);
            return true;
        }
        i = i + 1;
    }
    false
}

/// Whether the table holds an entry named `key`.
pub fn table_contains(table: &Vec<(String, Upstream)>, key: &String) -> (found: bool)
    ensures
        found == upstream_names(upstream_views(table@)).contains(key@),
{
    let ghost names = upstream_names(upstream_views(table@));
    let mut i: usize = 0;
    while i < table.len()
        invariant
            i <= table.len(),
            names == upstream_names(upstream_views(table@)),
            forall|h: int| 0 <= h < i ==> names[h] != key@,
        decreases table.len() - i,
    {
        if table[i].0 == *key {
            assert(names[i as int] == key@);
            return true;
        }
        i = i + 1;
    }
    false
}

/// Adds the addresses of `listen` to `seen`, up to the first one that `seen`
/// holds already, and returns the position of that one.
fn record_listens(seen: &mut Vec<String>, listen: &Vec<String>) -> (repeated: Option<usize>)
    ensures
        ({
            let all = texts(old(seen)@) + texts(listen@);
            match repeated {
                Some(l) => {
                    &&& l < listen.len()
                    &&& repeats(all, old(seen).len() + l)
                    &&& forall|j: int| old(seen).len() <= j < old(seen).len() + l ==> !repeats(all, j)
                },
                None => {
                    &&& texts(final(seen)@) == all
                    &&& forall|j: int| old(seen).len() <= j < all.len() ==> !repeats(all, j)
                },
            }
        }),
{
    let ghost all = texts(old(seen)@) + texts(listen@);
    let ghost before = old(seen)@.len() as int;
    let mut l: usize = 0;
    while l < listen.len()
        invariant
            l <= listen.len(),
            before == old(seen)@.len(),
            all == texts(old(seen)@) + texts(listen@),
            texts(seen@) == all.take(before + l),
            forall|j: int| before <= j < before + l ==> !repeats(all, j),
        decreases listen.len() - l,
    {
        if contains_text(seen, &listen[l]) {
            return Some(l);
        }
        seen.push(listen[l].clone());
        assert(all.take(before + l + 1) =~= all.take(before + l).push(all[before + l]));
        l = l + 1;
    }
    None
}

/// Adds the references of `server` to `used`.
fn collect_references(server: &ServerConfig, used: &mut Vec<String>)
    ensures
        texts(final(used)@) == texts(old(used)@) + references(server@),
{
    let ghost targets = sni_targets(server@);
    let tls = match server.tls {
        Some(enabled) => enabled,
        None => false,
    };
    match &server.sni {
        Some(routes) => {
            if tls {
                let mut i: usize = 0;
                while i < routes.len()
                    invariant
                        i <= routes.len(),
                        server.sni == Some(*routes),
                        server.tls == Some(true),
                        targets == sni_targets(server@),
                        texts(used@) == texts(old(used)@) + targets.take(i as int),
                    decreases routes.len() - i,
                {
                    let ghost collected = used@;
                    used.push(routes[i].1.clone());
                    assert(texts(used@) =~= texts(collected).push(targets[i as int]));
                    i = i + 1;
                }
            }
        },
        None => {},
    }
    match &server.default {
        Some(name) => {
            let ghost collected = used@;
            used.push(name.clone());
            assert(texts(used@) =~= texts(collected).push(name@));
        },
        None => {},
    }
}

/// The position of the first of `used` that names no entry of the table.
fn first_missing(used: &Vec<String>, table: &Vec<(String, Upstream)>) -> (missing: Option<usize>)
    ensures
        ({
            let names = upstream_names(upstream_views(table@));
            match missing {
                Some(m) => {
                    &&& m < used.len()
                    &&& !names.contains(texts(used@)[m as int])
                    &&& forall|j: int| 0 <= j < m ==> names.contains(#[trigger] texts(used@)[j])
                },
                None => forall|j: int|
                    0 <= j < used.len() ==> names.contains(#[trigger] texts(used@)[j]),
            }
        }),
{
    let ghost names = upstream_names(upstream_views(table@));
    let mut m: usize = 0;
    while m < used.len()
        invariant
            m <= used.len(),
            names == upstream_names(upstream_views(table@)),
            forall|j: int| 0 <= j < m ==> names.contains(#[trigger] texts(used@)[j]),
        decreases used.len() - m,
    {
        if !table_contains(table, &used[m]) {
            return Some(m);
        }
        m = m + 1;
    }
    None
}

/// Checks a routing table and hands it back unchanged if it is consistent.
/// One that is not is rejected for its first violation.
///
/// The references are gathered server by server and never reset: after each
/// server, every reference gathered so far is looked up.
pub fn verify_config(config: ParsedConfig) -> (res: Result<ParsedConfig, ConfigError>)
    ensures
        res is Ok <==> consistent(config@),
        match res {
            Ok(checked) => checked == config && verdict(config@) is None,
            Err(e) => verdict(config@) is Some && e.reports(verdict(config@)->0),
        },
{
    let ghost names = upstream_names(config@.upstream);
    let ghost servers = config@.servers;
    let ghost n = servers.len() as int;
    let ghost listens = listens_before(servers, n);
    let ghost refs = references_before(servers, n);
    proof {
        lemma_verdict_none_iff_consistent(config@);
    }
    let mut d: usize = 0;
    while d < config.upstream.len()
        invariant
            d <= config.upstream.len(),
            verdict(config@) is None <==> consistent(config@),
            names == upstream_names(config@.upstream),
            forall|j: int| 0 <= j < d ==> !repeats(names, j),
        decreases config.upstream.len() - d,
    {
        if name_repeats(&config.upstream, d) {
            proof {
                lemma_first_index_is(names.len(), repeats_in(names), d as int);
            }
            return Err(ConfigError::duplicate_upstream(config.upstream[d].0.as_str()));
        }
        d = d + 1;
    }
    proof {
        lemma_first_index_none(names.len(), repeats_in(names));
    }
    let mut listen_addresses: Vec<String> = Vec::new();
    let mut k: usize = 0;
    while k < config.servers.len()
        invariant
            k <= config.servers.len(),
            verdict(config@) is None <==> consistent(config@),
            names == upstream_names(config@.upstream),
            servers == config@.servers,
            n == servers.len(),
            listens == listens_before(servers, n),
            first_index(names.len(), repeats_in(names)) == names.len(),
            texts(listen_addresses@) == listens_before(servers, k as int),
            forall|j: int| 0 <= j < listen_addresses.len() ==> !repeats(listens, j),
        decreases config.servers.len() - k,
    {
        let server = &config.servers[k].1;
        let ghost before = listen_addresses@.len() as int;
        let ghost so_far = listens_before(servers, k + 1);
        proof {
            lemma_listens_prefix(servers, k + 1, n);
            assert forall|j: int| 0 <= j < so_far.len() implies repeats(so_far, j) == repeats(
                listens,
                j,
            ) by {
                lemma_repeats_in_prefix(so_far, listens, j);
            }
        }
        match record_listens(&mut listen_addresses, &server.listen) {
            Some(l) => {
                proof {
                    assert(repeats_in(listens)(before + l));
                    lemma_first_index_is(listens.len(), repeats_in(listens), before + l);
                    assert(listens[before + l] == so_far[before + l]);
                }
                return Err(ConfigError::duplicate_listen(server.listen[l].as_str()));
            },
            None => {},
        }
        k = k + 1;
    }
    proof {
        lemma_first_index_none(listens.len(), repeats_in(listens));
    }
    let mut used_upstreams: Vec<String> = Vec::new();
    let mut k: usize = 0;
    while k < config.servers.len()
        invariant
            k <= config.servers.len(),
            verdict(config@) is None <==> consistent(config@),
            names == upstream_names(config@.upstream),
            servers == config@.servers,
            n == servers.len(),
            listens == listens_before(servers, n),
            refs == references_before(servers, n),
            first_index(names.len(), repeats_in(names)) == names.len(),
            first_index(listens.len(), repeats_in(listens)) == listens.len(),
            texts(used_upstreams@) == references_before(servers, k as int),
            forall|j: int| 0 <= j < used_upstreams.len() ==> names.contains(#[trigger] refs[j]),
        decreases config.servers.len() - k,
    {
        collect_references(&config.servers[k].1, &mut used_upstreams);
        let ghost so_far = texts(used_upstreams@);
        proof {
            lemma_references_prefix(servers, k + 1, n);
            assert forall|j: int| 0 <= j < so_far.len() implies so_far[j] == refs[j] by {
                assert(refs.take(so_far.len() as int)[j] == refs[j]);
            }
        }
        match first_missing(&used_upstreams, &config.upstream) {
            Some(m) => {
                proof {
                    assert(missing_in(names, refs)(m as int));
                    assert forall|j: int| 0 <= j < m implies !(#[trigger] missing_in(names, refs)(
                        j,
                    )) by {
                        assert(names.contains(so_far[j]));
                    }
                    lemma_first_index_is(refs.len(), missing_in(names, refs), m as int);
                }
                return Err(ConfigError::upstream_not_found(used_upstreams[m].as_str()));
            },
            None => {
                assert forall|j: int| 0 <= j < used_upstreams.len() implies names.contains(
                    #[trigger] refs[j],
                ) by {
                    assert(names.contains(so_far[j]));
                }
            },
        }
        k = k + 1;
    }
    proof {
        assert forall|j: int| 0 <= j < refs.len() implies !(#[trigger] missing_in(names, refs)(
            j,
        )) by {
            assert(names.contains(refs[j]));
        }
        lemma_first_index_none(refs.len(), missing_in(names, refs));
    }
    Ok(config)
}

/// The names that `unused` keeps: those that are not reserved and that none
/// of `used` names.
pub open spec fn is_unused(used: Seq<Seq<char>>) -> spec_fn(Seq<char>) -> bool {
    |name: Seq<char>| !is_builtin(name) && !used.contains(name)
}

/// The upstreams that are declared to no purpose: the names of the table, in
/// its order, that no server refers to. The reserved names are never among
/// them.
pub open spec fn unused(config: ParsedConfigView) -> Seq<Seq<char>> {
    upstream_names(config.upstream).filter(
        is_unused(references_before(config.servers, config.servers.len() as int)),
    )
}

/// The names of the upstreams that no server refers to, for the caller to
/// warn about. An unused upstream is no error.
pub fn unused_upstreams(config: &ParsedConfig) -> (names: Vec<String>)
    ensures
        texts(names@) == unused(config@),
{
    let ghost servers = config@.servers;
    let mut used_upstreams: Vec<String> = Vec::new();
    let mut k: usize = 0;
    while k < config.servers.len()
        invariant
            k <= config.servers.len(),
            servers == config@.servers,
            texts(used_upstreams@) == references_before(servers, k as int),
        decreases config.servers.len() - k,
    {
        collect_references(&config.servers[k].1, &mut used_upstreams);
        k = k + 1;
    }
    let ghost table_names = upstream_names(config@.upstream);
    let ghost keep = is_unused(texts(used_upstreams@));
    let mut names: Vec<String> = Vec::new();
    let mut i: usize = 0;
    proof {
        reveal(Seq::filter);
    }
    while i < config.upstream.len()
        invariant
            i <= config.upstream.len(),
            table_names == upstream_names(config@.upstream),
            keep == is_unused(texts(used_upstreams@)),
            texts(names@) == table_names.take(i as int).filter(keep),
        decreases config.upstream.len() - i,
    {
        let name = &config.upstream[i].0;
        proof {
            reveal(Seq::filter);
            assert(table_names.take(i + 1).drop_last() =~= table_names.take(i as int));
        }
        if !is_builtin_name(name) && !contains_text(&used_upstreams, name) {
            names.push(name.clone());
        }
        i = i + 1;
    }
    assert(table_names.take(i as int) =~= table_names);
    names
}

} // verus!
