use vstd::prelude::*;
use vstd::utf8::encode_utf8;
use crate::indices::{first_where, indices_where};
use crate::types::{
    ActionHash, EntryHash, Link, LinkV, Node, NodeV, PrivateTag, PropertyConfig, TagError,
    TaggingEntry, TaggingLinkTypes, Visibility,
};

verus! {

/// The store as plain values: its nodes and links, by address, and the length bounds.
pub struct StoreV {
    pub nodes: Seq<NodeV>,
    pub links: Seq<LinkV>,
    pub min_len: nat,
    pub max_len: nat,
}

pub open spec fn option_int(o: Option<usize>) -> Option<int> {
    match o {
        Some(x) => Some(x as int),
        None => None,
    }
}

impl StoreV {
    /// Every link joins two nodes of the store, and no two private tag records, nor two public
    /// tag paths, share a value.
    pub open spec fn wf(self) -> bool {
        &&& forall|i: int|
            0 <= i < self.links.len() ==> (#[trigger] self.links[i]).base < self.nodes.len()
                && self.links[i].target < self.nodes.len()
        &&& self.distinct_tags()
    }

    /// No two private tag records, nor two public tag paths, share a value.
    pub open spec fn distinct_tags(self) -> bool {
        forall|i: int, j: int|
            0 <= i < self.nodes.len() && 0 <= j < self.nodes.len() && ((#[trigger] self.nodes[i]
                is PrivateTag && self.nodes[j] is PrivateTag) || (self.nodes[i] is PublicTag
                && self.nodes[j] is PublicTag)) && self.nodes[i].tag_value()
                == (#[trigger] self.nodes[j]).tag_value() ==> i == j
    }

    pub open spec fn private_tag_pred(self, v: Seq<char>) -> spec_fn(int) -> bool {
        |i: int| 0 <= i < self.nodes.len() && self.nodes[i].is_private_tag(v)
    }

    pub open spec fn public_tag_pred(self, v: Seq<char>) -> spec_fn(int) -> bool {
        |i: int| 0 <= i < self.nodes.len() && self.nodes[i].is_public_tag(v)
    }

    /// The address of the first private tag record with value `v`.
    pub open spec fn find_private(self, v: Seq<char>) -> Option<int> {
        first_where(self.private_tag_pred(v), self.nodes.len() as int)
    }

    /// The address of the first public tag path with value `v`.
    pub open spec fn find_public(self, v: Seq<char>) -> Option<int> {
        first_where(self.public_tag_pred(v), self.nodes.len() as int)
    }

    /// The length of `v` in UTF-8 bytes lies within the configured bounds.
    pub open spec fn valid_length(self, v: Seq<char>) -> bool {
        self.min_len <= encode_utf8(v).len() <= self.max_len
    }

    /// The guard on a target: it must be a node and declare the given visibility.
    pub open spec fn resolve(self, target: int, mode: Visibility) -> Result<(), TagError> {
        if !(0 <= target < self.nodes.len()) {
            Err(TagError::NotFound)
        } else if self.nodes[target].visibility() != mode {
            Err(TagError::VisibilityViolation)
        } else {
            Ok(())
        }
    }

    pub open spec fn with_node(self, n: NodeV) -> StoreV {
        StoreV { nodes: self.nodes.push(n), ..self }
    }

    pub open spec fn with_link(
        self,
        base: int,
        target: int,
        link_type: TaggingLinkTypes,
        tag: Seq<char>,
    ) -> StoreV {
        StoreV {
            links: self.links.push(
                LinkV { base: base as nat, target: target as nat, link_type, tag, deleted: false },
            ),
            ..self
        }
    }

    /// The store with link `k` tombstoned.
    pub open spec fn tombstoned(self, k: int) -> StoreV {
        StoreV { links: self.links.update(k, LinkV { deleted: true, ..self.links[k] }), ..self }
    }

    /// Link `i` is live, of kind `t`, and starts at `base`.
    pub open spec fn is_live_from(self, i: int, base: int, t: TaggingLinkTypes) -> bool {
        0 <= i < self.links.len() && !self.links[i].deleted && self.links[i].base == base
            && self.links[i].link_type == t
    }

    /// The live links of kind `t` that start at `base`.
    pub open spec fn live_from(self, base: int, t: TaggingLinkTypes) -> Seq<int> {
        self.links_where(base, t, None, None)
    }

    /// Link `i` is live, of kind `t`, starts at `base`, and, where given, ends at `to` and at a
    /// private tag record of value `value`.
    pub open spec fn link_query(
        self,
        base: int,
        t: TaggingLinkTypes,
        to: Option<int>,
        value: Option<Seq<char>>,
    ) -> spec_fn(int) -> bool {
        |i: int|
            self.is_live_from(i, base, t) && match to {
                Some(x) => self.links[i].target == x,
                None => true,
            } && match value {
                Some(v) => self.links[i].target < self.nodes.len() && self.nodes[self.links[
                    i
                ].target as int].is_private_tag(v),
                None => true,
            }
    }

    /// The addresses of the links that `link_query` selects, in order.
    pub open spec fn links_where(
        self,
        base: int,
        t: TaggingLinkTypes,
        to: Option<int>,
        value: Option<Seq<char>>,
    ) -> Seq<int> {
        indices_where(self.link_query(base, t, to, value), self.links.len() as int)
    }

    /// Link `i` is tombstoned, of kind `t`, and starts at `base`.
    pub open spec fn tombstoned_from_pred(self, base: int, t: TaggingLinkTypes) -> spec_fn(int) -> bool {
        |i: int|
            0 <= i < self.links.len() && self.links[i].deleted && self.links[i].base == base
                && self.links[i].link_type == t
    }

    /// The tombstoned links of kind `t` that start at `base`.
    pub open spec fn tombstoned_from(self, base: int, t: TaggingLinkTypes) -> Seq<int> {
        indices_where(self.tombstoned_from_pred(base, t), self.links.len() as int)
    }
}

/// The addresses `r` are the positions `m`.
pub open spec fn same_addresses(r: Seq<usize>, m: Seq<int>) -> bool {
    r.len() == m.len() && forall|k: int| 0 <= k < r.len() ==> r[k] as int == #[trigger] m[k]
}

/// An append-only graph store of entries, tag nodes and the links between them.
pub struct TaggingStore {
    nodes: Vec<Node>,
    links: Vec<Link>,
    properties: PropertyConfig,
}

impl View for TaggingStore {
    type V = StoreV;

    closed spec fn view(&self) -> StoreV {
        StoreV {
            nodes: self.nodes@.map_values(|n: Node| n@),
            links: self.links@.map_values(|l: Link| l@),
            min_len: self.properties.min_tag_name_length as nat,
            max_len: self.properties.max_tag_name_length as nat,
        }
    }
}

impl TaggingStore {
    pub open spec fn well_formed(&self) -> bool {
        self@.wf()
    }

    /// An empty store whose tag values must have a length within `properties`.
    pub fn new(properties: PropertyConfig) -> (r: Self)
        ensures
            r.well_formed(),
            r@.nodes.len() == 0,
            r@.links.len() == 0,
            r@.min_len == properties.min_tag_name_length,
            r@.max_len == properties.max_tag_name_length,
    {
        let r = TaggingStore { nodes: Vec::new(), links: Vec::new(), properties };
        assert(r@.nodes =~= Seq::<NodeV>::empty());
        assert(r@.links =~= Seq::<LinkV>::empty());
        r
    }

    /// Stores an application record with the given visibility; returns its address.
    pub fn create_entry(&mut self, visibility: Visibility) -> (r: EntryHash)
        requires
            old(self).well_formed(),
        ensures
            final(self).well_formed(),
            r == old(self)@.nodes.len(),
            final(self)@ == old(self)@.with_node(NodeV::Record(visibility)),
    {
        let r = self.nodes.len();
        self.nodes.push(Node::Record(visibility));
        assert(self@.nodes =~= old(self)@.nodes.push(NodeV::Record(visibility)));
        r
    }

    pub(crate) fn add_private_tag(&mut self, value: String, now: u64) -> (r: EntryHash)
        requires
            old(self).well_formed(),
            forall|i: int|
                0 <= i < old(self)@.nodes.len() ==> !(#[trigger] old(self)@.nodes[i]).is_private_tag(
                    value@,
                ),
        ensures
            final(self).well_formed(),
            r == old(self)@.nodes.len(),
            final(self)@ == old(self)@.with_node(
                NodeV::PrivateTag { value: value@, created_at: now },
            ),
    {
        let r = self.nodes.len();
        self.nodes.push(Node::Tagging(TaggingEntry::PrivateTag(PrivateTag { value }), now));
        assert(self@.nodes =~= old(self)@.nodes.push(
            NodeV::PrivateTag { value: value@, created_at: now },
        ));
        r
    }

    pub(crate) fn add_public_tag(&mut self, value: String) -> (r: EntryHash)
        requires
            old(self).well_formed(),
            forall|i: int|
                0 <= i < old(self)@.nodes.len() ==> !(#[trigger] old(self)@.nodes[i]).is_public_tag(
                    value@,
                ),
        ensures
            final(self).well_formed(),
            r == old(self)@.nodes.len(),
            final(self)@ == old(self)@.with_node(NodeV::PublicTag(value@)),
    {
        let r = self.nodes.len();
        let ghost v = value@;
        self.nodes.push(Node::PublicTag(value));
        assert(self@.nodes =~= old(self)@.nodes.push(NodeV::PublicTag(v)));
        r
    }

    /// Appends a live link; returns its address.
    pub(crate) fn add_link(
        &mut self,
        base: EntryHash,
        target: EntryHash,
        link_type: TaggingLinkTypes,
        tag: String,
    ) -> (r: ActionHash)
        requires
            old(self).well_formed(),
            base < old(self)@.nodes.len(),
            target < old(self)@.nodes.len(),
        ensures
            final(self).well_formed(),
            r == old(self)@.links.len(),
            final(self)@ == old(self)@.with_link(base as int, target as int, link_type, tag@),
    {
        let r = self.links.len();
        let ghost t = tag@;
        self.links.push(Link { base, target, link_type, tag, deleted: false });
        assert(self@.links =~= old(self)@.links.push(
            LinkV { base: base as nat, target: target as nat, link_type, tag: t, deleted: false },
        ));
        r
    }

    /// Tombstones link `k`: it stays in the store, marked deleted.
    pub(crate) fn tombstone(&mut self, k: ActionHash)
        requires
            old(self).well_formed(),
            k < old(self)@.links.len(),
        ensures
            final(self).well_formed(),
            final(self)@ == old(self)@.tombstoned(k as int),
    {
        self.links[k].deleted = true;
        assert(self@.links =~= old(self)@.tombstoned(k as int).links);
    }

    /// The configured bounds admit the length of `v`.
    pub fn valid_length(&self, v: &String) -> (r: bool)
        ensures
            r == self@.valid_length(v@),
    {
        let n = v.as_str().as_bytes().len();
        self.properties.min_tag_name_length as usize <= n
            && n <= self.properties.max_tag_name_length as usize
    }

    /// Checks that `target` is a node declaring the visibility `mode`.
    pub fn require_visibility(&self, target: EntryHash, mode: Visibility) -> (r: Result<(), TagError>)
        ensures
            r == self@.resolve(target as int, mode),
    {
        if target >= self.nodes.len() {
            return Err(TagError::NotFound);
        }
        let vis = match &self.nodes[target] {
            Node::Record(v) => *v,
            Node::Tagging(_, _) => Visibility::Private,
            Node::PublicTag(_) => Visibility::Public,
        };
        if vis != mode {
            Err(TagError::VisibilityViolation)
        } else {
            Ok(())
        }
    }

    /// Checks that the entry at `eh` exists and is private.
    pub fn query_private_entry(&self, eh: EntryHash) -> (r: Result<(), TagError>)
        ensures
            r == self@.resolve(eh as int, Visibility::Private),
    {
        self.require_visibility(eh, Visibility::Private)
    }

    /// Checks that the entry at `eh` exists and is public.
    pub fn fetch_public_entry(&self, eh: EntryHash) -> (r: Result<(), TagError>)
        ensures
            r == self@.resolve(eh as int, Visibility::Public),
    {
        self.require_visibility(eh, Visibility::Public)
    }

    /// The address of the first private tag record with value `v`.
    pub fn find_private_tag(&self, v: &String) -> (r: Option<EntryHash>)
        ensures
            option_int(r) == self@.find_private(v@),
    {
        let ghost p = self@.private_tag_pred(v@);
        let mut r: Option<EntryHash> = None;
        let mut i: usize = 0;
        while i < self.nodes.len()
            invariant
                i <= self.nodes@.len(),
                p == self@.private_tag_pred(v@),
                option_int(r) == first_where(p, i as int),
            decreases self.nodes@.len() - i,
        {
            let hit = match &self.nodes[i] {
                Node::Tagging(TaggingEntry::PrivateTag(t), _) => t.value == *v,
                _ => false,
            };
            assert(hit == p(i as int)) by {
                assert(self@.nodes[i as int] == self.nodes@[i as int]@);
            }
            if hit && r.is_none() {
                r = Some(i);
            }
            i = i + 1;
        }
        r
    }

    /// The address of the first public tag path with value `v`.
    pub fn find_public_tag(&self, v: &String) -> (r: Option<EntryHash>)
        ensures
            option_int(r) == self@.find_public(v@),
    {
        let ghost p = self@.public_tag_pred(v@);
        let mut r: Option<EntryHash> = None;
        let mut i: usize = 0;
        while i < self.nodes.len()
            invariant
                i <= self.nodes@.len(),
                p == self@.public_tag_pred(v@),
                option_int(r) == first_where(p, i as int),
            decreases self.nodes@.len() - i,
        {
            let hit = match &self.nodes[i] {
                Node::PublicTag(t) => *t == *v,
                _ => false,
            };
            assert(hit == p(i as int)) by {
                assert(self@.nodes[i as int] == self.nodes@[i as int]@);
            }
            if hit && r.is_none() {
                r = Some(i);
            }
            i = i + 1;
        }
        r
    }
    /// The addresses of the links that `StoreV::link_query` selects, in order.
    pub fn links_matching(
        &self,
        base: EntryHash,
        t: TaggingLinkTypes,
        to: Option<EntryHash>,
        value: Option<&String>,
    ) -> (r: Vec<ActionHash>)
        requires
            self.well_formed(),
        ensures
            same_addresses(
                r@,
                self@.links_where(
                    base as int,
                    t,
                    option_int(to),
                    match value {
                        Some(v) => Some(v@),
                        None => None,
                    },
                ),
            ),
    {
        let ghost vv = match value {
            Some(v) => Some(v@),
            None => None,
        };
        let ghost p = self@.link_query(base as int, t, option_int(to), vv);
        let mut r: Vec<ActionHash> = Vec::new();
        let mut i: usize = 0;
        while i < self.links.len()
            invariant
                self.well_formed(),
                i <= self.links@.len(),
                p == self@.link_query(base as int, t, option_int(to), vv),
                vv == match value {
                    Some(v) => Some(v@),
                    None => None::<Seq<char>>,
                },
                same_addresses(r@, indices_where(p, i as int)),
            decreases self.links@.len() - i,
        {
            let l = &self.links[i];
            assert(self@.links[i as int] == l@);
            let mut hit = !l.deleted && l.base == base && l.link_type == t;
            match to {
                Some(x) => {
                    hit = hit && l.target == x;
                },
                None => {},
            }
            match value {
                Some(v) => {
                    assert(self@.links[i as int].target < self@.nodes.len());
                    let same = match &self.nodes[l.target] {
                        Node::Tagging(TaggingEntry::PrivateTag(tg), _) => tg.value == *v,
                        _ => false,
                    };
                    assert(self@.nodes[l.target as int] == self.nodes@[l.target as int]@);
                    hit = hit && same;
                },
                None => {},
            }
            assert(hit == p(i as int));
            if hit {
                r.push(i);
            }
            i = i + 1;
        }
        r
    }

    /// The addresses of the tombstoned links of kind `t` that start at `base`, in order.
    pub fn tombstoned_links_from(&self, base: EntryHash, t: TaggingLinkTypes) -> (r: Vec<ActionHash>)
        ensures
            same_addresses(r@, self@.tombstoned_from(base as int, t)),
    {
        let ghost p = self@.tombstoned_from_pred(base as int, t);
        let mut r: Vec<ActionHash> = Vec::new();
        let mut i: usize = 0;
        while i < self.links.len()
            invariant
                i <= self.links@.len(),
                p == self@.tombstoned_from_pred(base as int, t),
                same_addresses(r@, indices_where(p, i as int)),
            decreases self.links@.len() - i,
        {
            let l = &self.links[i];
            assert(self@.links[i as int] == l@);
            if l.deleted && l.base == base && l.link_type == t {
                r.push(i);
            }
            i = i + 1;
        }
        r
    }

    /// The target of link `k`.
    pub fn link_target(&self, k: ActionHash) -> (r: EntryHash)
        requires
            self.well_formed(),
            k < self@.links.len(),
        ensures
            r == self@.links[k as int].target,
            r < self@.nodes.len(),
    {
        assert(self@.links[k as int] == self.links@[k as int]@);
        self.links[k].target
    }

    /// The base of link `k`.
    pub fn link_base(&self, k: ActionHash) -> (r: EntryHash)
        requires
            self.well_formed(),
            k < self@.links.len(),
        ensures
            r == self@.links[k as int].base,
            r < self@.nodes.len(),
    {
        assert(self@.links[k as int] == self.links@[k as int]@);
        self.links[k].base
    }

    /// The payload of link `k`.
    pub fn link_tag(&self, k: ActionHash) -> (r: String)
        requires
            k < self@.links.len(),
        ensures
            r@ == self@.links[k as int].tag,
    {
        assert(self@.links[k as int] == self.links@[k as int]@);
        self.links[k].tag.clone()
    }

    /// The tag value of the node at `a`: empty for an application record.
    pub fn node_tag_value(&self, a: EntryHash) -> (r: String)
        requires
            a < self@.nodes.len(),
        ensures
            r@ == self@.nodes[a as int].tag_value(),
    {
        assert(self@.nodes[a as int] == self.nodes@[a as int]@);
        match &self.nodes[a] {
            Node::Record(_) => String::new(),
            Node::Tagging(TaggingEntry::PrivateTag(t), _) => t.value.clone(),
            Node::PublicTag(v) => v.clone(),
        }
    }

    /// The creation time of the node at `a`: zero for a node that is no private tag record.
    pub fn node_created_at(&self, a: EntryHash) -> (r: u64)
        requires
            a < self@.nodes.len(),
        ensures
            r == self@.nodes[a as int].created_at(),
    {
        assert(self@.nodes[a as int] == self.nodes@[a as int]@);
        match &self.nodes[a] {
            Node::Tagging(_, c) => *c,
            _ => 0,
        }
    }

    /// The number of nodes in the store.
    pub fn node_count(&self) -> (r: usize)
        ensures
            r == self@.nodes.len(),
    {
        self.nodes.len()
    }

    /// The number of links in the store, tombstoned ones included.
    pub fn link_count(&self) -> (r: usize)
        ensures
            r == self@.links.len(),
    {
        self.links.len()
    }

    /// Whether link `k` exists and has not been tombstoned.
    pub fn is_link_live(&self, k: ActionHash) -> (r: bool)
        ensures
            r == (k < self@.links.len() && !self@.links[k as int].deleted),
    {
        if k >= self.links.len() {
            return false;
        }
        assert(self@.links[k as int] == self.links@[k as int]@);
        !self.links[k].deleted
    }

    /// Whether the node at `a` is a private tag record; whether it is a public tag path.
    pub fn node_kind(&self, a: EntryHash) -> (r: (bool, bool))
        requires
            a < self@.nodes.len(),
        ensures
            r.0 == self@.nodes[a as int] is PrivateTag,
            r.1 == self@.nodes[a as int] is PublicTag,
    {
        assert(self@.nodes[a as int] == self.nodes@[a as int]@);
        match &self.nodes[a] {
            Node::Record(_) => (false, false),
            Node::Tagging(_, _) => (true, false),
            Node::PublicTag(_) => (false, true),
        }
    }
}
} // verus!
