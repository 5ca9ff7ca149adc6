//! Stable numeric routing aliases for circuit nets.
//!
//! Routers address nets by a `u32`; each circuit net receives the index at
//! which the circuit declares it. Aliases are kept in increasing net-text
//! order, the order in which they are listed.

use vstd::prelude::*;

use crate::identity::NetId;
use crate::model::{Circuit, Net};
use crate::validation::{key_order, lemma_key_order_exists, repeats, sorted_key_order, sorted_keys, TextKeyed};

verus! {

/// Numeric net identity used by routers (the router's `NetId(u32)`).
#[derive(Clone, Copy, Debug, PartialEq, Eq, PartialOrd, Ord, Hash, Structural)]
pub struct RoutingNetId(pub u32);

/// Stable mapping between circuit net identities and numeric routing ids.
#[derive(Clone, Debug, PartialEq, Eq)]
pub struct RoutingNetAliases {
    aliases: Vec<(NetId, RoutingNetId)>,
}

/// Error text when a circuit has more nets than numeric ids.
pub const TOO_MANY_NETS: &'static str = "too many nets for hyperpath ids";

/// Error text when a circuit declares one net twice.
pub const DUPLICATE_NET: &'static str = "duplicate circuit net cannot receive a routing alias";

/// Some net at an index that still fits a routing id repeats an earlier net.
pub open spec fn early_repeat(nets: Seq<Net>) -> bool {
    exists|j: int| 0 <= j < nets.len() && j <= u32::MAX && #[trigger] repeats(nets, j)
}

/// The aliases of a circuit with distinct nets: each net with its
/// declaration index, in increasing net-text order.
pub open spec fn declared_aliases(nets: Seq<Net>) -> Seq<(Seq<char>, u32)> {
    sorted_key_order(nets).map_values(|i: usize| (nets[i as int].id@, i as u32))
}

/// What a lookup of the net text `net` in `entries` may return: the id of
/// the first entry for that net, or nothing when no entry names it.
pub open spec fn alias_lookup(entries: Seq<(Seq<char>, u32)>, net: Seq<char>, alias: Option<RoutingNetId>) -> bool {
    match alias {
        Some(id) => exists|k: int|
            0 <= k < entries.len() && #[trigger] entries[k] == (net, id.0) && forall|j: int|
                0 <= j < k ==> (#[trigger] entries[j]).0 != net,
        None => forall|k: int| 0 <= k < entries.len() ==> (#[trigger] entries[k]).0 != net,
    }
}

/// What a lookup of the numeric id `id` in `entries` may return: the net of
/// the first entry with that id, or nothing when no entry has it.
pub open spec fn net_lookup(entries: Seq<(Seq<char>, u32)>, id: u32, net: Option<NetId>) -> bool {
    match net {
        Some(found) => exists|k: int|
            0 <= k < entries.len() && #[trigger] entries[k] == (found@, id) && forall|j: int|
                0 <= j < k ==> (#[trigger] entries[j]).1 != id,
        None => forall|k: int| 0 <= k < entries.len() ==> (#[trigger] entries[k]).1 != id,
    }
}

impl Default for RoutingNetAliases {
    /// No aliases.
    fn default() -> (aliases: Self)
        ensures
            aliases.entries() == Seq::<(Seq<char>, u32)>::empty(),
    {
        let aliases = RoutingNetAliases { aliases: Vec::new() };
        proof {
            assert(aliases.entries() =~= Seq::<(Seq<char>, u32)>::empty());
        }
        aliases
    }
}

impl RoutingNetAliases {
    /// The aliases, each net's text with its numeric id, in listed order.
    pub closed spec fn entries(&self) -> Seq<(Seq<char>, u32)> {
        self.aliases@.map_values(|entry: (NetId, RoutingNetId)| (entry.0@, entry.1.0))
    }

    /// Builds aliases in circuit net declaration order: the net declared at
    /// index `i` receives `i`. A net declared twice, or an index beyond
    /// `u32`, is refused, whichever comes first.
    pub fn from_circuit(circuit: &Circuit) -> (result: Result<Self, &'static str>)
        ensures
            early_repeat(circuit.nets@) ==> result == Err::<Self, &'static str>(DUPLICATE_NET),
            !early_repeat(circuit.nets@) && circuit.nets@.len() > u32::MAX + 1 ==> result == Err::<Self, &'static str>(
                TOO_MANY_NETS,
            ),
            !early_repeat(circuit.nets@) && circuit.nets@.len() <= u32::MAX + 1 ==> (result matches Ok(aliases)
                && aliases.entries() == declared_aliases(circuit.nets@)),
    {
        let nets = &circuit.nets;
        let mut i: usize = 0;
        while i < nets.len()
            invariant
                i <= nets@.len(),
                i <= u32::MAX + 1,
                nets@ == circuit.nets@,
                forall|j: int| 0 <= j < i ==> !#[trigger] repeats(nets@, j),
            decreases nets.len() - i,
        {
            if i > 0xffff_ffffusize {
                proof {
                    reveal_strlit("too many nets for hyperpath ids");
                    reveal_strlit("duplicate circuit net cannot receive a routing alias");
                    assert(TOO_MANY_NETS@ != DUPLICATE_NET@) by {
                        assert(TOO_MANY_NETS@[0] != DUPLICATE_NET@[0]);
                    }
                }
                return Err(TOO_MANY_NETS);
            }
            if crate::validation::key_repeats(nets, i) {
                proof {
                    assert(early_repeat(nets@));
                }
                return Err(DUPLICATE_NET);
            }
            i = i + 1;
        }
        let order = sorted_keys(nets);
        let mut aliases: Vec<(NetId, RoutingNetId)> = Vec::new();
        let mut k: usize = 0;
        while k < order.len()
            invariant
                k <= order@.len(),
                nets@.len() <= u32::MAX + 1,
                order@ == sorted_key_order(nets@),
                key_order(nets@, order@),
                aliases@.len() == k,
                forall|m: int|
                    0 <= m < k ==> (#[trigger] aliases@[m]).0@ == nets@[order@[m] as int].id@ && aliases@[m].1.0
                        == order@[m] as u32,
            decreases order.len() - k,
        {
            let index = order[k];
            aliases.push((nets[index].id.clone(), RoutingNetId(index as u32)));
            k = k + 1;
        }
        let result = RoutingNetAliases { aliases };
        proof {
            assert(result.entries() =~= declared_aliases(nets@));
        }
        Ok(result)
    }

    /// The routing alias of one logical net.
    pub fn get(&self, net: &NetId) -> (alias: Option<RoutingNetId>)
        ensures
            alias_lookup(self.entries(), net@, alias),
    {
        let mut k: usize = 0;
        while k < self.aliases.len()
            invariant
                k <= self.aliases@.len(),
                self.entries().len() == self.aliases@.len(),
                forall|j: int| 0 <= j < k ==> (#[trigger] self.entries()[j]).0 != net@,
            decreases self.aliases.len() - k,
        {
            if self.aliases[k].0.same(net) {
                assert(self.entries()[k as int] == (net@, self.aliases@[k as int].1.0));
                return Some(self.aliases[k].1);
            }
            k = k + 1;
        }
        None
    }

    /// The logical net of one numeric routing alias.
    pub fn logical(&self, routing_net: RoutingNetId) -> (net: Option<&NetId>)
        ensures
            net_lookup(self.entries(), routing_net.0, match net {
                Some(id) => Some(*id),
                None => None,
            }),
    {
        let mut k: usize = 0;
        while k < self.aliases.len()
            invariant
                k <= self.aliases@.len(),
                self.entries().len() == self.aliases@.len(),
                forall|j: int| 0 <= j < k ==> (#[trigger] self.entries()[j]).1 != routing_net.0,
            decreases self.aliases.len() - k,
        {
            if self.aliases[k].1 == routing_net {
                assert(self.entries()[k as int] == (self.aliases@[k as int].0@, routing_net.0));
                return Some(&self.aliases[k].0);
            }
            k = k + 1;
        }
        None
    }

    /// The logical/numeric aliases in stable logical-id order.
    pub fn iter(&self) -> (pairs: Vec<(NetId, RoutingNetId)>)
        ensures
            pairs@.len() == self.entries().len(),
            forall|k: int|
                0 <= k < pairs@.len() ==> ((#[trigger] pairs@[k]).0@, pairs@[k].1.0) == self.entries()[k],
    {
        let mut pairs: Vec<(NetId, RoutingNetId)> = Vec::new();
        let mut k: usize = 0;
        while k < self.aliases.len()
            invariant
                k <= self.aliases@.len(),
                self.entries().len() == self.aliases@.len(),
                pairs@.len() == k,
                forall|j: int| 0 <= j < k ==> ((#[trigger] pairs@[j]).0@, pairs@[j].1.0) == self.entries()[j],
            decreases self.aliases.len() - k,
        {
            pairs.push((self.aliases[k].0.clone(), self.aliases[k].1));
            k = k + 1;
        }
        pairs
    }
}


/// In the aliases of a circuit whose nets are distinct, each net is listed
/// with its declaration index, and no other net has that index.
pub proof fn declared_aliases_number_nets(nets: Seq<Net>, i: int)
    requires
        !early_repeat(nets),
        nets.len() <= u32::MAX + 1,
        nets.len() <= usize::MAX,
        0 <= i < nets.len(),
    ensures
        exists|k: int|
            0 <= k < declared_aliases(nets).len() && #[trigger] declared_aliases(nets)[k] == (nets[i].id@, i as u32),
        forall|k: int|
            0 <= k < declared_aliases(nets).len() ==> ((#[trigger] declared_aliases(nets)[k]).0 == nets[i].id@
                <==> declared_aliases(nets)[k].1 == i as u32),
{
    let order = sorted_key_order(nets);
    lemma_key_order_exists(nets);
    assert forall|j: int| 0 <= j < nets.len() implies !#[trigger] repeats(nets, j) by {
        assert(j <= u32::MAX);
    }
    assert(!repeats(nets, (i as usize) as int));
    assert(order.contains(i as usize));
    let k0 = choose|k: int| 0 <= k < order.len() && order[k] == i as usize;
    assert(declared_aliases(nets)[k0] == (nets[i].id@, i as u32));
    assert forall|k: int| 0 <= k < declared_aliases(nets).len() implies ((#[trigger] declared_aliases(nets)[k]).0
        == nets[i].id@ <==> declared_aliases(nets)[k].1 == i as u32) by {
        let j = order[k] as int;
        assert(0 <= j < nets.len());
        assert(declared_aliases(nets)[k] == (nets[j].id@, j as u32));
        if nets[j].id@ == nets[i].id@ && j != i {
            if j < i {
                assert(nets[j].key_text() == nets[i].key_text());
                assert(repeats(nets, i));
            } else {
                assert(nets[i].key_text() == nets[j].key_text());
                assert(repeats(nets, j));
            }
        }
    }
}

/// Round trip of the aliases of a circuit whose nets are distinct: looking up
/// the net declared at index `i` finds the numeric id `i`, and looking up the
/// numeric id `i` finds that net.
pub proof fn aliases_round_trip(nets: Seq<Net>, i: int, alias: Option<RoutingNetId>, net: Option<NetId>)
    requires
        !early_repeat(nets),
        nets.len() <= u32::MAX + 1,
        nets.len() <= usize::MAX,
        0 <= i < nets.len(),
        alias_lookup(declared_aliases(nets), nets[i].id@, alias),
        net_lookup(declared_aliases(nets), i as u32, net),
    ensures
        alias == Some(RoutingNetId(i as u32)),
        net matches Some(found) && found@ == nets[i].id@,
{
    declared_aliases_number_nets(nets, i);
    let entries = declared_aliases(nets);
    let k0 = choose|k: int| 0 <= k < entries.len() && #[trigger] entries[k] == (nets[i].id@, i as u32);
    match alias {
        Some(id) => {
            let k = choose|k: int|
                0 <= k < entries.len() && #[trigger] entries[k] == (nets[i].id@, id.0) && forall|j: int|
                    0 <= j < k ==> (#[trigger] entries[j]).0 != nets[i].id@;
            assert(entries[k].0 == nets[i].id@);
            assert(entries[k].1 == i as u32);
        },
        None => {
            assert(entries[k0].0 == nets[i].id@);
        },
    }
    match net {
        Some(found) => {
            let k = choose|k: int|
                0 <= k < entries.len() && #[trigger] entries[k] == (found@, i as u32) && forall|j: int|
                    0 <= j < k ==> (#[trigger] entries[j]).1 != i as u32;
            assert(entries[k].1 == i as u32);
            assert(entries[k].0 == nets[i].id@);
        },
        None => {
            assert(entries[k0].1 == i as u32);
        },
    }
}
} // verus!
