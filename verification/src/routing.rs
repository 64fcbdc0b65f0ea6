//! Lookups in a routing table, for whoever dispatches connections: the
//! server behind a listen address, the upstream that a connection selects,
//! and the upstream behind a name.
//!
//! Each lookup returns the first entry that matches. In a table that passed
//! validation no upstream name and no listen address stands twice, so the
//! first match is the only one; the same holds of the SNI hostnames of a
//! server whose entries read as a map (`servers_keyed`).

use crate::config::{ParsedConfig, ServerConfig, Upstream, upstream_views};
use crate::consistency::hostnames;
use crate::search::{first_index, lemma_first_index_is, lemma_first_index_none};
use crate::text::{contains_text, text_pairs};
use crate::validate::upstream_names;
use vstd::prelude::*;

verus! {

/// The positions of `items` that hold `item`.
pub open spec fn holds(items: Seq<Seq<char>>, item: Seq<char>) -> spec_fn(int) -> bool {
    |i: int| items[i] == item
}

/// The positions of the servers that listen on `address`.
pub open spec fn listens_on(servers: Seq<(String, ServerConfig)>, address: Seq<char>) -> spec_fn(
    int,
) -> bool {
    |i: int| servers[i].1@.listen.contains(address)
}

/// Whether `name` refers to what `value` holds, or both hold nothing.
pub open spec fn refers_to(name: Option<&String>, value: Option<String>) -> bool {
    match (name, value) {
        (Some(n), Some(v)) => *n == v,
        (None, None) => true,
        _ => false,
    }
}

impl ParsedConfig {
    /// The upstream named `name`, if the table holds one.
    pub fn find_upstream(&self, name: &String) -> (found: Option<&Upstream>)
        ensures
            ({
                let names = upstream_names(upstream_views(self.upstream@));
                let first = first_index(names.len(), holds(names, name@));
                match found {
                    Some(upstream) => first < names.len() && *upstream == self.upstream@[first].1,
                    None => first == names.len() && !names.contains(name@),
                }
            }),
    {
        let ghost names = upstream_names(upstream_views(self.upstream@));
        let mut i: usize = 0;
        while i < self.upstream.len()
            invariant
                i <= self.upstream.len(),
                names == upstream_names(upstream_views(self.upstream@)),
                forall|j: int| 0 <= j < i ==> !(#[trigger] holds(names, name@)(j)),
            decreases self.upstream.len() - i,
        {
            if self.upstream[i].0 == *name {
                proof {
                    lemma_first_index_is(names.len(), holds(names, name@), i as int);
                }
                return Some(&self.upstream[i].1);
            }
            i = i + 1;
        }
        proof {
            lemma_first_index_none(names.len(), holds(names, name@));
            assert forall|j: int| 0 <= j < names.len() implies names[j] != name@ by {
                assert(!holds(names, name@)(j));
            }
        }
        None
    }

    /// The server that listens on `address`, if there is one.
    pub fn find_server(&self, address: &String) -> (found: Option<&ServerConfig>)
        ensures
            ({
                let first = first_index(self.servers@.len(), listens_on(self.servers@, address@));
                match found {
                    Some(server) => first < self.servers@.len() && *server
                        == self.servers@[first].1,
                    None => first == self.servers@.len(),
                }
            }),
    {
        let mut i: usize = 0;
        while i < self.servers.len()
            invariant
                i <= self.servers.len(),
                forall|j: int| 0 <= j < i ==> !(#[trigger] listens_on(self.servers@, address@)(j)),
            decreases self.servers.len() - i,
        {
            if contains_text(&self.servers[i].1.listen, address) {
                proof {
                    lemma_first_index_is(
                        self.servers@.len(),
                        listens_on(self.servers@, address@),
                        i as int,
                    );
                }
                return Some(&self.servers[i].1);
            }
            i = i + 1;
        }
        proof {
            lemma_first_index_none(self.servers@.len(), listens_on(self.servers@, address@));
        }
        None
    }
}

impl ServerConfig {
    /// Whether connections to this server are selected by SNI: TLS is
    /// enabled and there are SNI entries.
    pub open spec fn selects_by_sni(&self) -> bool {
        self.tls == Some(true) && self.sni is Some
    }

    /// The name of the upstream for a connection that signalled the hostname
    /// `sni`, or none.
    ///
    /// Where TLS is enabled and an SNI entry bears the hostname, the first
    /// such entry decides. Otherwise the default does, if there is one.
    pub fn upstream_for(&self, sni: Option<&String>) -> (name: Option<&String>)
        ensures
            ({
                let decided = self.selects_by_sni() && sni is Some && hostnames(
                    text_pairs(self.sni->0@),
                ).contains(sni->0@);
                if decided {
                    let hosts = hostnames(text_pairs(self.sni->0@));
                    let first = first_index(hosts.len(), holds(hosts, sni->0@));
                    first < hosts.len() && refers_to(name, Some(self.sni->0@[first].1))
                } else {
                    refers_to(name, self.default)
                }
            }),
    {
        let tls = match self.tls {
            Some(enabled) => enabled,
            None => false,
        };
        match (&self.sni, sni) {
            (Some(routes), Some(hostname)) => {
                if tls {
                    let ghost hosts = hostnames(text_pairs(routes@));
                    let mut i: usize = 0;
                    while i < routes.len()
                        invariant
                            i <= routes.len(),
                            self.sni == Some(*routes),
                            self.tls == Some(true),
                            sni == Some(hostname),
                            hosts == hostnames(text_pairs(routes@)),
                            forall|j: int| 0 <= j < i ==> !(#[trigger] holds(hosts, hostname@)(j)),
                        decreases routes.len() - i,
                    {
                        if routes[i].0 == *hostname {
                            proof {
                                assert(hosts[i as int] == hostname@);
                                lemma_first_index_is(
                                    hosts.len(),
                                    holds(hosts, hostname@),
                                    i as int,
                                );
                            }
                            return Some(&routes[i].1);
                        }
                        i = i + 1;
                    }
                    proof {
                        assert forall|j: int| 0 <= j < hosts.len() implies hosts[j]
                            != hostname@ by {
                            assert(!holds(hosts, hostname@)(j));
                        }
                    }
                }
            },
            _ => {},
        }
        self.default.as_ref()
    }
}

} // verus!
