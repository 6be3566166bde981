//! Bootstrap node discovery and management.

use vstd::prelude::*;
use crate::network::replication::copy_texts;
use crate::text::{copy_text, same_text};
use crate::types::text_views;

verus! {

/// A bootstrap node entry.
#[derive(Debug, Clone)]
pub struct BootstrapNode {
    /// Human-readable name.
    pub name: String,
    /// Multiaddress(es) for this node.
    pub addresses: Vec<String>,
    /// Peer ID (for verification).
    pub peer_id: Option<String>,
    /// Geographic region hint.
    pub region: Option<String>,
    /// Is this node currently enabled?
    pub enabled: bool,
}

/// The mathematical view of a `BootstrapNode`.
pub struct BootstrapNodeView {
    pub name: Seq<char>,
    pub addresses: Seq<Seq<char>>,
    pub peer_id: Option<Seq<char>>,
    pub region: Option<Seq<char>>,
    pub enabled: bool,
}

impl View for BootstrapNode {
    type V = BootstrapNodeView;

    open spec fn view(&self) -> BootstrapNodeView {
        BootstrapNodeView {
            name: self.name@,
            addresses: text_views(self.addresses@),
            peer_id: match self.peer_id {
                Some(p) => Some(p@),
                None => None,
            },
            region: match self.region {
                Some(r) => Some(r@),
                None => None,
            },
            enabled: self.enabled,
        }
    }
}

/// Known bootstrap nodes: the initial nodes new peers connect to for network discovery.
#[derive(Debug, Clone)]
pub struct BootstrapConfig {
    /// Official bootstrap nodes.
    pub official: Vec<BootstrapNode>,
    /// Community-contributed bootstrap nodes.
    pub community: Vec<BootstrapNode>,
    /// User-added custom bootstrap nodes.
    pub custom: Vec<BootstrapNode>,
    /// Enable local network discovery (mDNS).
    pub mdns_enabled: bool,
    /// Minimum peers before trying more bootstrap nodes.
    pub min_peers: usize,
    /// Maximum bootstrap connection attempts.
    pub max_attempts: usize,
}

/// The views of a list of nodes.
pub open spec fn node_views(nodes: Seq<BootstrapNode>) -> Seq<BootstrapNodeView> {
    nodes.map_values(|n: BootstrapNode| n@)
}

/// The views of a list of borrowed nodes.
pub open spec fn node_ref_views(nodes: Seq<&BootstrapNode>) -> Seq<BootstrapNodeView> {
    nodes.map_values(|n: &BootstrapNode| n@)
}

/// The addresses of the enabled nodes, node after node.
pub open spec fn enabled_addresses(nodes: Seq<BootstrapNodeView>) -> Seq<Seq<char>>
    decreases nodes.len(),
{
    if nodes.len() == 0 {
        Seq::empty()
    } else if nodes.last().enabled {
        enabled_addresses(nodes.drop_last()) + nodes.last().addresses
    } else {
        enabled_addresses(nodes.drop_last())
    }
}

/// The number of enabled nodes.
pub open spec fn enabled_nodes(nodes: Seq<BootstrapNodeView>) -> nat
    decreases nodes.len(),
{
    if nodes.len() == 0 {
        0
    } else {
        enabled_nodes(nodes.drop_last()) + if nodes.last().enabled {
            1nat
        } else {
            0nat
        }
    }
}

/// The nodes whose name is not `name`, in their order.
pub open spec fn without_name(nodes: Seq<BootstrapNodeView>, name: Seq<char>) -> Seq<BootstrapNodeView>
    decreases nodes.len(),
{
    if nodes.len() == 0 {
        Seq::empty()
    } else if nodes.last().name == name {
        without_name(nodes.drop_last(), name)
    } else {
        without_name(nodes.drop_last(), name).push(nodes.last())
    }
}

/// Taking a name out shortens a list exactly where the name is in it.
pub proof fn lemma_without_name_len(nodes: Seq<BootstrapNodeView>, name: Seq<char>)
    ensures
        without_name(nodes, name).len() <= nodes.len(),
        without_name(nodes, name).len() < nodes.len() <==> exists|i: int|
            0 <= i < nodes.len() && (#[trigger] nodes[i]).name == name,
    decreases nodes.len(),
{
    if nodes.len() > 0 {
        let front = nodes.drop_last();
        lemma_without_name_len(front, name);
        if exists|i: int| 0 <= i < nodes.len() && (#[trigger] nodes[i]).name == name {
            let i = choose|i: int| 0 <= i < nodes.len() && (#[trigger] nodes[i]).name == name;
            if i < front.len() {
                assert(front[i].name == name);
            }
        }
    }
}

/// The first official node of the default configuration.
fn us_east_node() -> (node: BootstrapNode)
    ensures
        node.enabled,
        node.name@ == "grabnet-us-east"@,
        text_views(node.addresses@) == seq!["/dns4/bootstrap-us.grabnet.io/tcp/4001"@],
        node.peer_id is None,
        node.region matches Some(r) && r@ == "us-east"@,
{
    let mut addresses: Vec<String> = Vec::new();
    addresses.push("/dns4/bootstrap-us.grabnet.io/tcp/4001".to_owned());
    BootstrapNode {
        name: "grabnet-us-east".to_owned(),
        addresses,
        peer_id: None,
        region: Some("us-east".to_owned()),
        enabled: true,
    }
}

/// The second official node of the default configuration.
fn eu_west_node() -> (node: BootstrapNode)
    ensures
        node.enabled,
        node.name@ == "grabnet-eu-west"@,
        text_views(node.addresses@) == seq!["/dns4/bootstrap-eu.grabnet.io/tcp/4001"@],
        node.peer_id is None,
        node.region matches Some(r) && r@ == "eu-west"@,
{
    let mut addresses: Vec<String> = Vec::new();
    addresses.push("/dns4/bootstrap-eu.grabnet.io/tcp/4001".to_owned());
    BootstrapNode {
        name: "grabnet-eu-west".to_owned(),
        addresses,
        peer_id: None,
        region: Some("eu-west".to_owned()),
        enabled: true,
    }
}

impl Default for BootstrapConfig {
    fn default() -> (config: Self)
        ensures
            config.official@.len() == 2,
            config.official@[0].name@ == "grabnet-us-east"@,
            config.official@[1].name@ == "grabnet-eu-west"@,
            config.official@[0].enabled && config.official@[1].enabled,
            text_views(config.official@[0].addresses@) == seq!["/dns4/bootstrap-us.grabnet.io/tcp/4001"@],
            text_views(config.official@[1].addresses@) == seq!["/dns4/bootstrap-eu.grabnet.io/tcp/4001"@],
            config.community@.len() == 0,
            config.custom@.len() == 0,
            config.mdns_enabled,
            config.min_peers == 3,
            config.max_attempts == 10,
    {
        let mut official: Vec<BootstrapNode> = Vec::new();
        official.push(us_east_node());
        official.push(eu_west_node());
        BootstrapConfig {
            official,
            community: Vec::new(),
            custom: Vec::new(),
            mdns_enabled: true,
            min_peers: 3,
            max_attempts: 10,
        }
    }
}

/// Appends the addresses of the enabled nodes of a list.
fn collect_enabled(nodes: &Vec<BootstrapNode>, addresses: &mut Vec<String>)
    ensures
        text_views(final(addresses)@) == text_views(old(addresses)@) + enabled_addresses(
            node_views(nodes@),
        ),
{
    let ghost all = node_views(nodes@);
    let ghost start = text_views(addresses@);
    let mut i: usize = 0;
    while i < nodes.len()
        invariant
            i <= nodes@.len(),
            all == node_views(nodes@),
            start == text_views(old(addresses)@),
            text_views(addresses@) == start + enabled_addresses(all.take(i as int)),
        decreases nodes@.len() - i,
    {
        let node = &nodes[i];
        proof {
            assert(all.take(i + 1).drop_last() =~= all.take(i as int));
        }
        if node.enabled {
            let ghost before = text_views(addresses@);
            let mut k: usize = 0;
            while k < node.addresses.len()
                invariant
                    k <= node.addresses@.len(),
                    text_views(addresses@) == before + text_views(node.addresses@).take(k as int),
                decreases node.addresses@.len() - k,
            {
                let address = copy_text(node.addresses[k].as_str());
                proof {
                    assert(text_views(addresses@.push(address)) =~= text_views(addresses@).push(address@));
                }
                addresses.push(address);
                k += 1;
            }
        }
        i += 1;
    }
    proof {
        assert(all.take(nodes@.len() as int) =~= all);
    }
}

/// The number of enabled nodes of a list.
fn count_enabled(nodes: &Vec<BootstrapNode>) -> (count: usize)
    ensures
        count == enabled_nodes(node_views(nodes@)),
        count <= nodes@.len(),
{
    let ghost all = node_views(nodes@);
    let mut count: usize = 0;
    let mut i: usize = 0;
    while i < nodes.len()
        invariant
            i <= nodes@.len(),
            count <= i,
            all == node_views(nodes@),
            count == enabled_nodes(all.take(i as int)),
        decreases nodes@.len() - i,
    {
        proof {
            assert(all.take(i + 1).drop_last() =~= all.take(i as int));
        }
        if nodes[i].enabled {
            count += 1;
        }
        i += 1;
    }
    proof {
        assert(all.take(nodes@.len() as int) =~= all);
    }
    count
}

/// Appends references to the nodes of a list.
fn collect_nodes<'a>(nodes: &'a Vec<BootstrapNode>, all: &mut Vec<&'a BootstrapNode>)
    ensures
        node_ref_views(final(all)@) == node_ref_views(old(all)@) + node_views(nodes@),
{
    let ghost start = node_ref_views(all@);
    let mut i: usize = 0;
    while i < nodes.len()
        invariant
            i <= nodes@.len(),
            start == node_ref_views(old(all)@),
            node_ref_views(all@) == start + node_views(nodes@).take(i as int),
        decreases nodes@.len() - i,
    {
        let node = &nodes[i];
        proof {
            assert(node_ref_views(all@.push(node)) =~= node_ref_views(all@).push(node@));
        }
        all.push(node);
        i += 1;
    }
}

impl BootstrapConfig {
    /// Get all enabled bootstrap addresses: those of the official nodes,
    /// then of the community nodes, then of the custom nodes.
    pub fn get_enabled_addresses(&self) -> (addresses: Vec<String>)
        ensures
            text_views(addresses@) == enabled_addresses(node_views(self.official@)) + enabled_addresses(
                node_views(self.community@),
            ) + enabled_addresses(node_views(self.custom@)),
    {
        let mut addresses: Vec<String> = Vec::new();
        collect_enabled(&self.official, &mut addresses);
        collect_enabled(&self.community, &mut addresses);
        collect_enabled(&self.custom, &mut addresses);
        addresses
    }

    /// Add a custom bootstrap node: enabled, with no peer ID and no region.
    pub fn add_custom(&mut self, name: String, addresses: Vec<String>)
        ensures
            node_views(final(self).custom@) == node_views(old(self).custom@).push(
                BootstrapNodeView {
                    name: name@,
                    addresses: text_views(addresses@),
                    peer_id: None,
                    region: None,
                    enabled: true,
                },
            ),
            final(self).official == old(self).official,
            final(self).community == old(self).community,
            final(self).mdns_enabled == old(self).mdns_enabled,
            final(self).min_peers == old(self).min_peers,
            final(self).max_attempts == old(self).max_attempts,
    {
        let node = BootstrapNode { name, addresses, peer_id: None, region: None, enabled: true };
        self.custom.push(node);
    }

    /// Remove the custom bootstrap nodes of a name; says whether there was one.
    pub fn remove_custom(&mut self, name: &str) -> (removed: bool)
        ensures
            node_views(final(self).custom@) == without_name(node_views(old(self).custom@), name@),
            removed == exists|i: int|
                0 <= i < old(self).custom@.len() && (#[trigger] old(self).custom@[i]).name@ == name@,
            final(self).official == old(self).official,
            final(self).community == old(self).community,
            final(self).mdns_enabled == old(self).mdns_enabled,
            final(self).min_peers == old(self).min_peers,
            final(self).max_attempts == old(self).max_attempts,
    {
        let ghost all = node_views(self.custom@);
        let initial_len: usize = self.custom.len();
        let mut kept: Vec<BootstrapNode> = Vec::new();
        let mut rest: Vec<BootstrapNode> = Vec::new();
        std::mem::swap(&mut rest, &mut self.custom);
        proof {
            assert(node_views(kept@) =~= without_name(all.take(0), name@));
        }
        let mut i: usize = 0;
        while i < rest.len()
            invariant
                i <= rest@.len(),
                all == node_views(rest@),
                node_views(kept@) == without_name(all.take(i as int), name@),
            decreases rest@.len() - i,
        {
            proof {
                assert(all.take(i + 1).drop_last() =~= all.take(i as int));
            }
            if !same_text(rest[i].name.as_str(), name) {
                let node = copy_node(&rest[i]);
                kept.push(node);
            }
            i += 1;
        }
        proof {
            assert(all.take(rest@.len() as int) =~= all);
            lemma_without_name_len(all, name@);
            if exists|i: int| 0 <= i < rest@.len() && (#[trigger] rest@[i]).name@ == name@ {
                let i = choose|i: int| 0 <= i < rest@.len() && (#[trigger] rest@[i]).name@ == name@;
                assert(all[i].name == name@);
            }
        }
        let removed = kept.len() < initial_len;
        self.custom = kept;
        removed
    }

    /// List all bootstrap nodes: official, then community, then custom.
    pub fn list_all(&self) -> (all: Vec<&BootstrapNode>)
        ensures
            node_ref_views(all@) == node_views(self.official@) + node_views(self.community@) + node_views(
                self.custom@,
            ),
    {
        let mut all: Vec<&BootstrapNode> = Vec::new();
        collect_nodes(&self.official, &mut all);
        collect_nodes(&self.community, &mut all);
        collect_nodes(&self.custom, &mut all);
        all
    }

    /// Get count of enabled nodes.
    pub fn enabled_count(&self) -> (count: usize)
        requires
            self.official@.len() + self.community@.len() + self.custom@.len() <= usize::MAX,
        ensures
            count == enabled_nodes(node_views(self.official@)) + enabled_nodes(
                node_views(self.community@),
            ) + enabled_nodes(node_views(self.custom@)),
    {
        count_enabled(&self.official) + count_enabled(&self.community) + count_enabled(&self.custom)
    }
}

/// The parts of a text between its slashes; a text without slashes is its one part.
pub open spec fn slash_parts(bytes: Seq<u8>) -> Seq<Seq<u8>>
    decreases bytes.len(),
{
    if bytes.len() == 0 {
        seq![Seq::empty()]
    } else {
        let front = slash_parts(bytes.drop_last());
        if bytes.last() == 0x2f {
            front.push(Seq::empty())
        } else {
            front.drop_last().push(front.last().push(bytes.last()))
        }
    }
}

/// The number that decimal digits spell; `None` for no digits and for anything else.
pub open spec fn digits_value(digits: Seq<u8>) -> Option<nat>
    decreases digits.len(),
{
    if digits.len() == 0 || !(0x30 <= digits.last() <= 0x39) {
        None
    } else if digits.len() == 1 {
        Some((digits.last() - 0x30) as nat)
    } else {
        match digits_value(digits.drop_last()) {
            Some(value) => Some(value * 10 + (digits.last() - 0x30) as nat),
            None => None,
        }
    }
}

/// The port that a text spells: decimal digits, a plus sign before them
/// allowed, and no more than 65535.
pub open spec fn port_value(text: Seq<u8>) -> Option<u16> {
    let digits = if text.len() > 0 && text[0] == 0x2b {
        text.drop_first()
    } else {
        text
    };
    match digits_value(digits) {
        Some(value) => if value <= 65535 {
            Some(value as u16)
        } else {
            None
        },
        None => None,
    }
}

/// The host and port that a multiaddress of the form
/// `/ip4/<host>/tcp/<port>` names: its third and fifth part.
pub open spec fn dial_target_of(address: Seq<u8>) -> Option<(Seq<u8>, u16)> {
    let parts = slash_parts(address);
    if parts.len() < 5 {
        None
    } else {
        match port_value(parts[4]) {
            Some(port) => Some((parts[2], port)),
            None => None,
        }
    }
}

proof fn lemma_digits_grow(digits: Seq<u8>, shorter: int)
    requires
        1 <= shorter <= digits.len(),
        digits_value(digits) is Some,
    ensures
        digits_value(digits.take(shorter)) is Some,
        digits_value(digits.take(shorter))->0 <= digits_value(digits)->0,
    decreases digits.len(),
{
    if shorter < digits.len() {
        lemma_digits_grow(digits.drop_last(), shorter);
        assert(digits.drop_last().take(shorter) =~= digits.take(shorter));
    } else {
        assert(digits.take(shorter) =~= digits);
    }
}

/// The parts of a text between its slashes.
fn split_slashes(bytes: &[u8]) -> (parts: Vec<Vec<u8>>)
    ensures
        parts@.map_values(|p: Vec<u8>| p@) == slash_parts(bytes@),
{
    let mut parts: Vec<Vec<u8>> = Vec::new();
    let mut current: Vec<u8> = Vec::new();
    let mut i: usize = 0;
    while i < bytes.len()
        invariant
            i <= bytes@.len(),
            parts@.map_values(|p: Vec<u8>| p@).push(current@) == slash_parts(bytes@.take(i as int)),
        decreases bytes@.len() - i,
    {
        proof {
            assert(bytes@.take(i + 1).drop_last() =~= bytes@.take(i as int));
        }
        if bytes[i] == 0x2f {
            parts.push(current);
            current = Vec::new();
        } else {
            current.push(bytes[i]);
        }
        i += 1;
    }
    proof {
        assert(bytes@.take(bytes@.len() as int) =~= bytes@);
    }
    parts.push(current);
    parts
}

/// The port that a text spells.
fn parse_port(text: &[u8]) -> (port: Option<u16>)
    ensures
        port == port_value(text@),
{
    let start: usize = if text.len() > 0 && text[0] == 0x2b { 1 } else { 0 };
    let ghost digits = if start == 1 { text@.drop_first() } else { text@ };
    if start == text.len() {
        return None;
    }
    let mut value: u32 = 0;
    let mut i: usize = start;
    while i < text.len()
        invariant
            start <= i <= text@.len(),
            start < text@.len(),
            digits == text@.skip(start as int),
            digits == if text@.len() > 0 && text@[0] == 0x2b {
                text@.drop_first()
            } else {
                text@
            },
            value <= 65535,
            i == start ==> value == 0,
            i > start ==> digits_value(digits.take(i - start)) == Some(value as nat),
        decreases text@.len() - i,
    {
        let byte = text[i];
        let ghost read = digits.take(i + 1 - start);
        proof {
            assert(read.drop_last() =~= digits.take(i - start));
        }
        if byte < 0x30 || byte > 0x39 {
            proof {
                if digits_value(digits) is Some {
                    lemma_digits_grow(digits, i + 1 - start);
                }
            }
            return None;
        }
        let next: u32 = value * 10 + (byte - 0x30) as u32;
        if next > 65535 {
            proof {
                if digits_value(digits) is Some {
                    lemma_digits_grow(digits, i + 1 - start);
                }
            }
            return None;
        }
        value = next;
        i += 1;
    }
    proof {
        assert(digits.take(text@.len() - start) =~= digits);
    }
    Some(value as u16)
}

/// The host and port to connect to for a multiaddress of the form
/// `/ip4/<host>/tcp/<port>`; `None` for an address of fewer parts or
/// with a fifth part that is no port.
pub fn dial_target(address: &str) -> (target: Option<(Vec<u8>, u16)>)
    ensures
        match target {
            Some((host, port)) => dial_target_of(vstd::utf8::encode_utf8(address@)) == Some((host@, port)),
            None => dial_target_of(vstd::utf8::encode_utf8(address@)) is None,
        },
{
    let parts = split_slashes(address.as_bytes());
    if parts.len() < 5 {
        return None;
    }
    match parse_port(parts[4].as_slice()) {
        Some(port) => Some((crate::bytes::to_vec(parts[2].as_slice()), port)),
        None => None,
    }
}

/// A copy of a node.
pub fn copy_node(node: &BootstrapNode) -> (copy: BootstrapNode)
    ensures
        copy@ == node@,
{
    BootstrapNode {
        name: copy_text(node.name.as_str()),
        addresses: copy_texts(&node.addresses),
        peer_id: match &node.peer_id {
            Some(p) => Some(copy_text(p.as_str())),
            None => None,
        },
        region: match &node.region {
            Some(r) => Some(copy_text(r.as_str())),
            None => None,
        },
        enabled: node.enabled,
    }
}

} // verus!
