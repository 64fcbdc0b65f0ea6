//! From a document to a checked routing table.

use crate::config::{
    BaseConfig, BaseConfigView, ConfigError, ParsedConfig, ParsedConfigView, ProxyView, Rejection,
    Upstream, UpstreamView, is_builtin, is_builtin_name, upstream_views,
};
use crate::consistency::{keys_distinct, lemma_verdict_none_iff_consistent, servers_keyed};
use crate::search::{first_index, lemma_first_index, lemma_first_index_is, lemma_first_index_none};
use crate::servers::upstream_address::AddressCache;
use crate::text::text_of;
use crate::upstream_url::{classify, parse_upstream, url_parts};
use crate::validate::{upstream_names, verdict, verify_config};
use vstd::prelude::*;

verus! {

/// The entries that bear no reserved name, as a predicate.
pub open spec fn is_declared() -> spec_fn((Seq<char>, UpstreamView)) -> bool {
    |e: (Seq<char>, UpstreamView)| !is_builtin(e.0)
}

/// The entries that do not bear a reserved name.
pub open spec fn declared(table: Seq<(Seq<char>, UpstreamView)>) -> Seq<(Seq<char>, UpstreamView)> {
    table.filter(is_declared())
}

/// The two builtin upstreams under their reserved names.
pub open spec fn builtins() -> Seq<(Seq<char>, UpstreamView)> {
    seq![("ban"@, UpstreamView::Ban), ("echo"@, UpstreamView::Echo)]
}

/// A table with the builtin upstreams put in: they replace every entry that
/// bears one of their names, and stand last.
pub open spec fn with_builtins(table: Seq<(Seq<char>, UpstreamView)>) -> Seq<
    (Seq<char>, UpstreamView),
> {
    declared(table) + builtins()
}

/// What the loader makes of one declared upstream: a name and a URL.
pub open spec fn classify_entry(entry: (Seq<char>, Seq<char>)) -> Result<ProxyView, Rejection> {
    classify(entry.0, entry.1, url_parts(entry.1))
}

/// The positions of the declared upstreams whose URL cannot be used.
pub open spec fn unusable_in(entries: Seq<(Seq<char>, Seq<char>)>) -> spec_fn(int) -> bool {
    |i: int| classify_entry(entries[i]) is Err
}

/// The declared upstreams as table entries. Meant for declarations whose
/// URLs can all be used.
pub open spec fn proxies(entries: Seq<(Seq<char>, Seq<char>)>) -> Seq<(Seq<char>, UpstreamView)> {
    entries.map_values(
        |e: (Seq<char>, Seq<char>)| (e.0, UpstreamView::Proxy(classify_entry(e)->Ok_0)),
    )
}

/// The routing table of a document, before it is checked.
pub open spec fn assembled(base: BaseConfigView) -> ParsedConfigView {
    ParsedConfigView {
        version: base.version,
        log: base.log,
        servers: base.servers,
        upstream: with_builtins(proxies(base.upstream)),
    }
}

/// What loading a document comes to.
///
/// A version other than 1 is rejected whatever else the document holds. Then
/// the first declared upstream whose URL cannot be used is reported. Then the
/// table is assembled and checked.
pub open spec fn load_outcome(base: BaseConfigView) -> Result<ParsedConfigView, Rejection> {
    let bad = first_index(base.upstream.len(), unusable_in(base.upstream));
    if base.version != 1 {
        Err(Rejection::UnsupportedVersion)
    } else if bad < base.upstream.len() {
        Err(classify_entry(base.upstream[bad])->Err_0)
    } else {
        match verdict(assembled(base)) {
            Some(reason) => Err(reason),
            None => Ok(assembled(base)),
        }
    }
}

/// The names under which a document declares its upstreams.
pub open spec fn declared_names(entries: Seq<(Seq<char>, Seq<char>)>) -> Seq<Seq<char>> {
    entries.map_values(|e: (Seq<char>, Seq<char>)| e.0)
}

/// A table with the builtins put in ends with the two builtins. Before them
/// stand, in their order, the entries of the table that bear no reserved
/// name, and nothing else.
pub proof fn lemma_with_builtins(table: Seq<(Seq<char>, UpstreamView)>)
    ensures
        ({
            let full = with_builtins(table);
            &&& full.len() == declared(table).len() + 2
            &&& full[full.len() - 2] == ("ban"@, UpstreamView::Ban)
            &&& full[full.len() - 1] == ("echo"@, UpstreamView::Echo)
            &&& forall|i: int|
                0 <= i < full.len() - 2 ==> !is_builtin((#[trigger] full[i]).0) && table.contains(
                    full[i],
                )
            &&& forall|i: int|
                0 <= i < table.len() && !is_builtin(table[i].0) ==> full.contains(
                    #[trigger] table[i],
                )
        }),
{
    let keep = is_declared();
    let kept = declared(table);
    let full = with_builtins(table);
    assert forall|i: int| 0 <= i < full.len() - 2 implies !is_builtin((#[trigger] full[i]).0)
        && table.contains(full[i]) by {
        table.lemma_filter_pred(keep, i);
        assert(kept.contains(kept[i]));
        table.lemma_filter_contains_rev(keep, kept[i]);
    }
    assert forall|i: int| 0 <= i < table.len() && !is_builtin(table[i].0) implies full.contains(
        #[trigger] table[i],
    ) by {
        table.lemma_filter_contains(keep, i);
        let j = choose|j: int| 0 <= j < kept.len() && kept[j] == table[i];
        assert(full[j] == table[i]);
    }
}

/// Every entry of the table of a document that loads is what its name says:
/// `ban` is the banning upstream, `echo` the echoing one, and any other a
/// well-formed forwarding upstream that bears the name of its entry.
pub proof fn lemma_loaded_upstream(base: BaseConfigView, i: int)
    requires
        load_outcome(base) is Ok,
        0 <= i < load_outcome(base)->Ok_0.upstream.len(),
    ensures
        ({
            let entry = load_outcome(base)->Ok_0.upstream[i];
            match entry.1 {
                UpstreamView::Ban => entry.0 == "ban"@,
                UpstreamView::Echo => entry.0 == "echo"@,
                UpstreamView::Proxy(proxy) => {
                    &&& !is_builtin(entry.0)
                    &&& proxy.name == entry.0
                    &&& proxy.well_formed()
                    &&& proxy.addresses == AddressCache::fresh(proxy.addr)
                },
            }
        }),
{
    let entries = base.upstream;
    let table = with_builtins(proxies(entries));
    lemma_with_builtins(proxies(entries));
    lemma_first_index(entries.len(), unusable_in(entries));
    assert(load_outcome(base)->Ok_0.upstream == table);
    if i < table.len() - 2 {
        assert(proxies(entries).contains(table[i]));
        let j = choose|j: int| 0 <= j < proxies(entries).len() && proxies(entries)[j] == table[i];
        assert(!unusable_in(entries)(j));
    }
}

/// Loading keeps what reads as a map a map: where no server name and no SNI
/// hostname within a server stands twice in the document, none does in the
/// table, and no upstream name stands twice in a table that loaded, whatever
/// the document declared.
pub proof fn lemma_loaded_keys_distinct(base: BaseConfigView)
    requires
        load_outcome(base) is Ok,
        servers_keyed(base.servers),
    ensures
        keys_distinct(load_outcome(base)->Ok_0),
{
    lemma_verdict_none_iff_consistent(assembled(base));
}

/// The table of a document that loads holds the two builtin upstreams, and
/// its names are the reserved names and the declared ones, each once. A
/// document that declares no upstream gets the two builtins and nothing else.
pub proof fn lemma_loaded_table(base: BaseConfigView)
    requires
        load_outcome(base) is Ok,
    ensures
        ({
            let table = load_outcome(base)->Ok_0.upstream;
            &&& table.contains(("ban"@, UpstreamView::Ban))
            &&& table.contains(("echo"@, UpstreamView::Echo))
            &&& upstream_names(table).no_duplicates()
            &&& forall|name: Seq<char>|
                upstream_names(table).contains(name) <==> is_builtin(name) || declared_names(
                    base.upstream,
                ).contains(name)
            &&& base.upstream.len() == 0 ==> table == builtins()
        }),
{
    let entries = base.upstream;
    let table = with_builtins(proxies(entries));
    let names = upstream_names(table);
    lemma_with_builtins(proxies(entries));
    lemma_verdict_none_iff_consistent(assembled(base));
    assert(load_outcome(base)->Ok_0.upstream == table);
    assert(table[table.len() - 2] == ("ban"@, UpstreamView::Ban));
    assert(table[table.len() - 1] == ("echo"@, UpstreamView::Echo));
    assert(table.contains(("ban"@, UpstreamView::Ban)));
    assert(table.contains(("echo"@, UpstreamView::Echo)));
    assert(names.no_duplicates());
    assert forall|name: Seq<char>| names.contains(name) implies is_builtin(name) || declared_names(
        entries,
    ).contains(name) by {
        let i = choose|i: int| 0 <= i < names.len() && names[i] == name;
        if i < table.len() - 2 {
            assert(proxies(entries).contains(table[i]));
            let j = choose|j: int| 0 <= j < proxies(entries).len() && proxies(entries)[j] == table[i];
            assert(declared_names(entries)[j] == name);
        }
    }
    assert forall|name: Seq<char>|
        is_builtin(name) || declared_names(entries).contains(name) implies names.contains(name) by {
        if name == "ban"@ {
            assert(names[table.len() - 2] == name);
        } else if name == "echo"@ {
            assert(names[table.len() - 1] == name);
        } else {
            let j = choose|j: int|
                0 <= j < declared_names(entries).len() && declared_names(entries)[j] == name;
            assert(proxies(entries)[j].0 == name);
            assert(table.contains(proxies(entries)[j]));
            let i = choose|i: int| 0 <= i < table.len() && table[i] == proxies(entries)[j];
            assert(names[i] == name);
        }
    }
    if entries.len() == 0 {
        assert(table =~= builtins());
    }
}

/// The level at which logging starts for a document, if it starts at all:
/// the level that the document configures, unless that is `disable`. A
/// document without a level starts no logging, nor does one of another
/// version than 1.
pub open spec fn log_level(base: BaseConfigView) -> Option<Seq<char>> {
    match base.log {
        Some(level) => if base.version != 1 || level == "disable"@ {
            None
        } else {
            Some(level)
        },
        None => None,
    }
}

impl BaseConfig {
    /// The level at which the caller is to start logging before it loads
    /// this document: `None` where it is to start none.
    pub fn log_level(&self) -> (level: Option<String>)
        ensures
            text_of(level) == log_level(self@),
    {
        match &self.log {
            Some(level) => {
                if self.version != 1 || *level == String::from_str("disable") {
                    None
                } else {
                    Some(level.clone())
                }
            },
            None => None,
        }
    }
}

/// Builds the routing table of a document and checks it.
pub fn load_config(base: BaseConfig) -> (res: Result<ParsedConfig, ConfigError>)
    ensures
        match res {
            Ok(parsed) => load_outcome(base@) == Ok::<ParsedConfigView, Rejection>(parsed@),
            Err(e) => load_outcome(base@) is Err && e.reports(load_outcome(base@)->Err_0),
        },
        base.version != 1 ==> res is Err && res->Err_0.reports(Rejection::UnsupportedVersion),
        res matches Ok(parsed) ==> parsed@.upstream == with_builtins(proxies(base@.upstream)),
{
    if base.version != 1 {
        return Err(ConfigError::unsupported_version());
    }
    let ghost entries = base@.upstream;
    let mut parsed_upstream: Vec<(String, Upstream)> = Vec::new();
    let mut i: usize = 0;
    proof {
        reveal(Seq::filter);
    }
    while i < base.upstream.len()
        invariant
            i <= base.upstream.len(),
            base.version == 1,
            entries == base@.upstream,
            forall|j: int| 0 <= j < i ==> !(#[trigger] unusable_in(entries)(j)),
            upstream_views(parsed_upstream@) == declared(proxies(entries).take(i as int)),
        decreases base.upstream.len() - i,
    {
        let name = &base.upstream[i].0;
        let url = &base.upstream[i].1;
        let proxy = match parse_upstream(name.as_str(), url.as_str()) {
            Ok(proxy) => proxy,
            Err(e) => {
                proof {
                    lemma_first_index_is(entries.len(), unusable_in(entries), i as int);
                }
                return Err(e);
            },
        };
        proof {
            reveal(Seq::filter);
            assert(proxies(entries).take(i + 1).drop_last() =~= proxies(entries).take(i as int));
        }
        if !is_builtin_name(name) {
            parsed_upstream.push((name.clone(), Upstream::Proxy(proxy)));
        }
        i = i + 1;
    }
    proof {
        lemma_first_index_none(entries.len(), unusable_in(entries));
        assert(proxies(entries).take(i as int) =~= proxies(entries));
    }
    let ghost kept = parsed_upstream@;
    parsed_upstream.push((String::from_str("ban"), Upstream::Ban));
    parsed_upstream.push((String::from_str("echo"), Upstream::Echo));
    assert(upstream_views(parsed_upstream@) =~= upstream_views(kept) + builtins());
    let parsed = ParsedConfig {
        version: base.version,
        log: base.log,
        servers: base.servers,
        upstream: parsed_upstream,
    };
    verify_config(parsed)
}

/// A routing table that passed every check.
#[derive(Clone, Debug)]
pub struct Config {
    pub base: ParsedConfig,
}

impl View for Config {
    type V = ParsedConfigView;

    open spec fn view(&self) -> ParsedConfigView {
        self.base@
    }
}

impl Config {
    /// Loads a document: builds its routing table and checks it.
    pub fn new(base: BaseConfig) -> (res: Result<Config, ConfigError>)
        ensures
            match res {
                Ok(config) => load_outcome(base@) == Ok::<ParsedConfigView, Rejection>(config@),
                Err(e) => load_outcome(base@) is Err && e.reports(load_outcome(base@)->Err_0),
            },
    {
        match load_config(base) {
            Ok(base) => Ok(Config { base }),
            Err(e) => Err(e),
        }
    }
}

} // verus!
