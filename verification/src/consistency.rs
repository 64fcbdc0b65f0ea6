//! What the verdict on a routing table means.
//!
//! `verdict` is defined by the order in which the checks run. This module
//! states what a table is like when it passes, and what each rejection says
//! of the table, without reference to that order.

use crate::config::{ParsedConfigView, Rejection, ServerConfigView};
use crate::search::{first_index, lemma_first_index};
use crate::validate::{
    lemma_references_prefix, listens_before, missing_in, references, references_before, repeats,
    repeats_in, upstream_names, verdict,
};
use vstd::prelude::*;

verus! {

/// All listen addresses of a table, server after server.
pub open spec fn all_listens(config: ParsedConfigView) -> Seq<Seq<char>> {
    listens_before(config.servers, config.servers.len() as int)
}

/// All references of a table, server after server.
pub open spec fn all_references(config: ParsedConfigView) -> Seq<Seq<char>> {
    references_before(config.servers, config.servers.len() as int)
}

/// Whether every upstream that a server refers to is in the table.
pub open spec fn references_resolve(config: ParsedConfigView) -> bool {
    forall|k: int, j: int|
        0 <= k < config.servers.len() && 0 <= j < references(config.servers[k].1).len()
            ==> upstream_names(config.upstream).contains(
            #[trigger] references(config.servers[k].1)[j],
        )
}

/// A table is consistent when no upstream name stands twice, no listen
/// address is declared twice, by one server or by two, and every reference
/// of a server names an upstream of the table.
pub open spec fn consistent(config: ParsedConfigView) -> bool {
    &&& upstream_names(config.upstream).no_duplicates()
    &&& all_listens(config).no_duplicates()
    &&& references_resolve(config)
}

/// The names of the servers, in order.
pub open spec fn server_names(servers: Seq<(Seq<char>, ServerConfigView)>) -> Seq<Seq<char>> {
    servers.map_values(|e: (Seq<char>, ServerConfigView)| e.0)
}

/// The hostnames of a list of SNI entries, in order.
pub open spec fn hostnames(routes: Seq<(Seq<char>, Seq<char>)>) -> Seq<Seq<char>> {
    routes.map_values(|e: (Seq<char>, Seq<char>)| e.0)
}

/// Whether the servers read as a map from names, each with a map from
/// hostnames: no server name stands twice, and within one server no SNI
/// hostname does.
pub open spec fn servers_keyed(servers: Seq<(Seq<char>, ServerConfigView)>) -> bool {
    &&& server_names(servers).no_duplicates()
    &&& forall|k: int|
        0 <= k < servers.len() && (#[trigger] servers[k]).1.sni is Some ==> hostnames(
            servers[k].1.sni->0,
        ).no_duplicates()
}

/// Whether every list of the table reads as a map: no server name, no SNI
/// hostname within a server and no upstream name stands twice. Validation
/// checks the last of these and takes the others as it finds them.
pub open spec fn keys_distinct(config: ParsedConfigView) -> bool {
    servers_keyed(config.servers) && upstream_names(config.upstream).no_duplicates()
}

/// Whether `item` stands at two positions of `items`.
pub open spec fn occurs_twice(items: Seq<Seq<char>>, item: Seq<char>) -> bool {
    exists|i: int, j: int| 0 <= i < j < items.len() && items[i] == item && items[j] == item
}

/// Whether some server of the table refers to `name`.
pub open spec fn is_referred_to(config: ParsedConfigView, name: Seq<char>) -> bool {
    exists|k: int| 0 <= k < config.servers.len() && references(config.servers[k].1).contains(name)
}

/// A list holds nothing twice if and only if no position repeats an earlier
/// one.
pub proof fn lemma_no_repeats(items: Seq<Seq<char>>)
    ensures
        items.no_duplicates() <==> forall|j: int| 0 <= j < items.len() ==> !repeats(items, j),
{
    if items.no_duplicates() {
        assert forall|j: int| 0 <= j < items.len() implies !repeats(items, j) by {
            if repeats(items, j) {
                let i = choose|i: int| 0 <= i < j && items.take(j)[i] == items[j];
                assert(items[i] == items[j]);
            }
        }
    }
    if forall|j: int| 0 <= j < items.len() ==> !repeats(items, j) {
        assert forall|i: int, j: int|
            0 <= i < items.len() && 0 <= j < items.len() && i != j implies items[i] != items[j] by {
            if items[i] == items[j] {
                if i < j {
                    assert(items.take(j)[i] == items[j]);
                    assert(repeats(items, j));
                } else {
                    assert(items.take(i)[j] == items[i]);
                    assert(repeats(items, i));
                }
            }
        }
    }
}

/// A position that repeats an earlier one holds an item that stands twice.
pub proof fn lemma_repeat_occurs_twice(items: Seq<Seq<char>>, j: int)
    requires
        0 <= j < items.len(),
        repeats(items, j),
    ensures
        occurs_twice(items, items[j]),
{
    let i = choose|i: int| 0 <= i < j && items.take(j)[i] == items[j];
    assert(items[i] == items[j]);
}

/// Every reference of a server stands among the references of the table:
/// the position at which reference `i` of server `k` stands there.
pub proof fn lemma_reference_position(
    servers: Seq<(Seq<char>, ServerConfigView)>,
    n: int,
    k: int,
    i: int,
) -> (j: int)
    requires
        0 <= k < n,
        0 <= i < references(servers[k].1).len(),
    ensures
        0 <= j < references_before(servers, n).len(),
        references_before(servers, n)[j] == references(servers[k].1)[i],
{
    let j = references_before(servers, k).len() + i;
    let upto = references_before(servers, k + 1);
    lemma_references_prefix(servers, k + 1, n);
    assert(upto[j] == references(servers[k].1)[i]);
    assert(references_before(servers, n).take(upto.len() as int)[j] == upto[j]);
    j
}

/// Every reference of the table is a reference of one of its servers: the
/// server and the position in its references at which reference `j` of the
/// table stands.
pub proof fn lemma_reference_owner(servers: Seq<(Seq<char>, ServerConfigView)>, n: int, j: int)
    -> (owner: (int, int))
    requires
        0 <= j < references_before(servers, n).len(),
    ensures
        0 <= owner.0 < n,
        0 <= owner.1 < references(servers[owner.0].1).len(),
        references(servers[owner.0].1)[owner.1] == references_before(servers, n)[j],
    decreases n,
{
    if n <= 0 {
        (0, 0)
    } else if j >= references_before(servers, n - 1).len() {
        (n - 1, j - references_before(servers, n - 1).len())
    } else {
        lemma_reference_owner(servers, n - 1, j)
    }
}

/// Every reference of every server is in `names` if and only if every
/// reference of the table is.
proof fn lemma_references_resolve(config: ParsedConfigView)
    ensures
        references_resolve(config) <==> forall|j: int|
            0 <= j < all_references(config).len() ==> upstream_names(config.upstream).contains(
                #[trigger] all_references(config)[j],
            ),
{
    let names = upstream_names(config.upstream);
    let servers = config.servers;
    let n = servers.len() as int;
    let refs = all_references(config);
    if references_resolve(config) {
        assert forall|j: int| 0 <= j < refs.len() implies names.contains(#[trigger] refs[j]) by {
            let (k, i) = lemma_reference_owner(servers, n, j);
            assert(names.contains(references(servers[k].1)[i]));
        }
    }
    if forall|j: int| 0 <= j < refs.len() ==> names.contains(#[trigger] refs[j]) {
        assert forall|k: int, i: int|
            0 <= k < n && 0 <= i < references(servers[k].1).len() implies names.contains(
            #[trigger] references(servers[k].1)[i],
        ) by {
            let j = lemma_reference_position(servers, n, k, i);
            assert(names.contains(refs[j]));
        }
    }
}

/// A table passes if and only if it is consistent.
pub proof fn lemma_verdict_none_iff_consistent(config: ParsedConfigView)
    ensures
        verdict(config) is None <==> consistent(config),
{
    let names = upstream_names(config.upstream);
    let listens = all_listens(config);
    let refs = all_references(config);
    let d = first_index(names.len(), repeats_in(names));
    let l = first_index(listens.len(), repeats_in(listens));
    let r = first_index(refs.len(), missing_in(names, refs));
    lemma_first_index(names.len(), repeats_in(names));
    lemma_first_index(listens.len(), repeats_in(listens));
    lemma_first_index(refs.len(), missing_in(names, refs));
    lemma_no_repeats(names);
    lemma_no_repeats(listens);
    lemma_references_resolve(config);
    if d < names.len() {
        assert(repeats_in(names)(d));
    } else {
        assert forall|j: int| 0 <= j < names.len() implies !repeats(names, j) by {
            assert(!repeats_in(names)(j));
        }
    }
    if l < listens.len() {
        assert(repeats_in(listens)(l));
    } else {
        assert forall|j: int| 0 <= j < listens.len() implies !repeats(listens, j) by {
            assert(!repeats_in(listens)(j));
        }
    }
    if r < refs.len() {
        assert(missing_in(names, refs)(r));
    } else {
        assert forall|j: int| 0 <= j < refs.len() implies names.contains(#[trigger] refs[j]) by {
            assert(!missing_in(names, refs)(j));
        }
    }
}

/// What a rejection says of the table.
///
/// A reported upstream name stands twice in the table. A reported listen
/// address is declared twice, and no upstream name stands twice. A reported
/// missing upstream is referred to by a server and is not in the table, and
/// neither an upstream name nor a listen address stands twice.
pub proof fn lemma_verdict_reason(config: ParsedConfigView)
    ensures
        match verdict(config) {
            Some(Rejection::DuplicateUpstream(name)) => occurs_twice(
                upstream_names(config.upstream),
                name,
            ),
            Some(Rejection::DuplicateListen(address)) => {
                &&& upstream_names(config.upstream).no_duplicates()
                &&& occurs_twice(all_listens(config), address)
            },
            Some(Rejection::UpstreamNotFound(name)) => {
                &&& upstream_names(config.upstream).no_duplicates()
                &&& all_listens(config).no_duplicates()
                &&& is_referred_to(config, name)
                &&& !upstream_names(config.upstream).contains(name)
            },
            Some(_) => false,
            None => consistent(config),
        },
{
    let names = upstream_names(config.upstream);
    let listens = all_listens(config);
    let refs = all_references(config);
    let d = first_index(names.len(), repeats_in(names));
    let l = first_index(listens.len(), repeats_in(listens));
    let r = first_index(refs.len(), missing_in(names, refs));
    lemma_verdict_none_iff_consistent(config);
    lemma_first_index(names.len(), repeats_in(names));
    lemma_first_index(listens.len(), repeats_in(listens));
    lemma_first_index(refs.len(), missing_in(names, refs));
    lemma_no_repeats(names);
    lemma_no_repeats(listens);
    if d < names.len() {
        assert(repeats_in(names)(d));
        lemma_repeat_occurs_twice(names, d);
    } else {
        assert forall|j: int| 0 <= j < names.len() implies !repeats(names, j) by {
            assert(!repeats_in(names)(j));
        }
        if l < listens.len() {
            assert(repeats_in(listens)(l));
            lemma_repeat_occurs_twice(listens, l);
        } else {
            assert forall|j: int| 0 <= j < listens.len() implies !repeats(listens, j) by {
                assert(!repeats_in(listens)(j));
            }
            if r < refs.len() {
                assert(missing_in(names, refs)(r));
                let (k, i) = lemma_reference_owner(config.servers, config.servers.len() as int, r);
                assert(references(config.servers[k].1).contains(refs[r]));
            }
        }
    }
}

/// An upstream name that stands twice is what the verdict reports, whatever
/// else is wrong with the table.
pub proof fn lemma_duplicate_upstream_is_reported(config: ParsedConfigView)
    requires
        !upstream_names(config.upstream).no_duplicates(),
    ensures
        verdict(config) matches Some(Rejection::DuplicateUpstream(name)) && occurs_twice(
            upstream_names(config.upstream),
            name,
        ),
{
    lemma_verdict_reason(config);
}

/// A listen address that is declared twice is reported where the upstream
/// names are distinct, whatever the servers refer to.
pub proof fn lemma_duplicate_listen_is_reported(config: ParsedConfigView)
    requires
        upstream_names(config.upstream).no_duplicates(),
        !all_listens(config).no_duplicates(),
    ensures
        verdict(config) matches Some(Rejection::DuplicateListen(address)) && occurs_twice(
            all_listens(config),
            address,
        ),
{
    lemma_verdict_reason(config);
    match verdict(config) {
        Some(Rejection::DuplicateUpstream(name)) => {
            let names = upstream_names(config.upstream);
            let (a, b) = choose|a: int, b: int|
                0 <= a < b < names.len() && names[a] == name && names[b] == name;
            assert(!names.no_duplicates());
        },
        _ => {},
    }
}

/// A reference to an upstream that the table lacks is reported as not found,
/// where neither an upstream name nor a listen address stands twice. Whatever
/// else is wrong with it, a table with such a reference does not pass.
pub proof fn lemma_dangling_reference_is_reported(config: ParsedConfigView, k: int, j: int)
    requires
        0 <= k < config.servers.len(),
        0 <= j < references(config.servers[k].1).len(),
        !upstream_names(config.upstream).contains(references(config.servers[k].1)[j]),
    ensures
        verdict(config) is Some,
        upstream_names(config.upstream).no_duplicates() && all_listens(config).no_duplicates()
            ==> (verdict(config) matches Some(Rejection::UpstreamNotFound(name)) && is_referred_to(
            config,
            name,
        ) && !upstream_names(config.upstream).contains(name)),
{
    lemma_verdict_reason(config);
    assert(!references_resolve(config));
    match verdict(config) {
        Some(Rejection::DuplicateUpstream(name)) => {
            let names = upstream_names(config.upstream);
            let (a, b) = choose|a: int, b: int|
                0 <= a < b < names.len() && names[a] == name && names[b] == name;
            assert(!names.no_duplicates());
        },
        Some(Rejection::DuplicateListen(address)) => {
            let all = all_listens(config);
            let (a, b) = choose|a: int, b: int|
                0 <= a < b < all.len() && all[a] == address && all[b] == address;
            assert(!all.no_duplicates());
        },
        _ => {},
    }
}

} // verus!
