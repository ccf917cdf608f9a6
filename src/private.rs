use vstd::prelude::*;
use crate::dedup::{dedup, dedup_tags, string_values};
use crate::indices::{indices_where, lemma_indices_where, lemma_indices_where_empty};
use crate::store::{StoreV, TaggingStore, same_addresses};
use crate::types::{EntryHash, NodeV, TagError, TaggingInput, TaggingLinkTypes, UntagInput, Visibility};

verus! {

pub open spec fn int_result(r: Result<usize, TagError>) -> Result<int, TagError> {
    match r {
        Ok(a) => Ok(a as int),
        Err(e) => Err(e),
    }
}

impl StoreV {
    /// Creating a private tag record: refused for a value already in the catalog, then for a
    /// value of invalid length; else the record is appended and its address returned.
    pub open spec fn commit_private_spec(self, v: Seq<char>, now: u64) -> (Result<int, TagError>, StoreV) {
        if self.find_private(v) is Some {
            (Err(TagError::DuplicateTag), self)
        } else if !self.valid_length(v) {
            (Err(TagError::InvalidLength), self)
        } else {
            (
                Ok(self.nodes.len() as int),
                self.with_node(NodeV::PrivateTag { value: v, created_at: now }),
            )
        }
    }

    /// The private tag record for `v`: the existing one, or a new one.
    pub open spec fn resolve_private_tag(self, v: Seq<char>, now: u64) -> (Result<int, TagError>, StoreV) {
        match self.find_private(v) {
            Some(a) => (Ok(a), self),
            None => self.commit_private_spec(v, now),
        }
    }

    /// Applying one private tag: resolve or create its record, then write the link from the tag
    /// to the target (carrying `payload`) and the link back (carrying nothing).
    pub open spec fn tag_private_step(
        self,
        target: int,
        v: Seq<char>,
        payload: Seq<char>,
        now: u64,
    ) -> (Result<(), TagError>, StoreV) {
        let st = self.resolve_private_tag(v, now);
        match st.0 {
            Err(e) => (Err(e), st.1),
            Ok(a) => (
                Ok(()),
                st.1.with_link(a, target, TaggingLinkTypes::PrivateEntry, payload).with_link(
                    target,
                    a,
                    TaggingLinkTypes::PrivateTags,
                    Seq::empty(),
                ),
            ),
        }
    }

    /// Applying the tags in order, stopping at the first failure; what was written stays.
    pub open spec fn tag_private_batch(
        self,
        target: int,
        tags: Seq<Seq<char>>,
        payload: Seq<char>,
        now: u64,
    ) -> (Result<(), TagError>, StoreV)
        decreases tags.len(),
    {
        if tags.len() == 0 {
            (Ok(()), self)
        } else {
            let st = self.tag_private_step(target, tags[0], payload, now);
            if st.0 is Err {
                st
            } else {
                st.1.tag_private_batch(target, tags.drop_first(), payload, now)
            }
        }
    }

    /// Tagging a private target: the guard, then each distinct tag once.
    pub open spec fn tag_private_spec(
        self,
        target: int,
        tags: Seq<Seq<char>>,
        payload: Seq<char>,
        now: u64,
    ) -> (Result<(), TagError>, StoreV) {
        let g = self.resolve(target, Visibility::Private);
        if g is Err {
            (g, self)
        } else {
            self.tag_private_batch(target, dedup(tags), payload, now)
        }
    }

    /// Removing a private tag from a target: the guard; exactly one live link from the target to
    /// the tag, which is tombstoned; then exactly one live link back, tombstoned too.
    pub open spec fn untag_private_spec(self, target: int, v: Seq<char>) -> (Result<(), TagError>, StoreV) {
        let g = self.resolve(target, Visibility::Private);
        if g is Err {
            (g, self)
        } else {
            let m = self.links_where(target, TaggingLinkTypes::PrivateTags, None, Some(v));
            if m.len() != 1 {
                (Err(TagError::TagNotFound), self)
            } else {
                let s1 = self.tombstoned(m[0]);
                let tag = self.links[m[0]].target as int;
                let m2 = s1.links_where(tag, TaggingLinkTypes::PrivateEntry, Some(target), None);
                if m2.len() != 1 {
                    (Err(TagError::ReverseLinkMissing), s1)
                } else {
                    (Ok(()), s1.tombstoned(m2[0]))
                }
            }
        }
    }
    pub open spec fn private_tag_node_pred(self) -> spec_fn(int) -> bool {
        |i: int| 0 <= i < self.nodes.len() && self.nodes[i] is PrivateTag
    }

    /// Every private tag record, in order of address: (address, creation time, value).
    pub open spec fn private_catalog(self) -> Seq<(int, u64, Seq<char>)> {
        indices_where(self.private_tag_node_pred(), self.nodes.len() as int).map_values(
            |i: int| (i, self.nodes[i].created_at(), self.nodes[i].tag_value()),
        )
    }

    /// The private tags applied to `target`: (tag address, value) for each live link from it.
    pub open spec fn private_tags_of(self, target: int) -> Seq<(int, Seq<char>)> {
        self.live_from(target, TaggingLinkTypes::PrivateTags).map_values(
            |i: int|
                (self.links[i].target as int, self.nodes[self.links[i].target as int].tag_value()),
        )
    }

    /// The entries tagged with the first private tag of value `v`: (entry address, payload) for
    /// each live link from that tag; none where no such tag exists.
    pub open spec fn private_entries_with(self, v: Seq<char>) -> Seq<(int, Seq<char>)> {
        match self.find_private(v) {
            None => Seq::empty(),
            Some(a) => self.live_from(a, TaggingLinkTypes::PrivateEntry).map_values(
                |i: int| (self.links[i].target as int, self.links[i].tag),
            ),
        }
    }
}

/// The exec pairs `r` hold the values `m`.
pub open spec fn pairs_match(r: Seq<(usize, String)>, m: Seq<(int, Seq<char>)>) -> bool {
    r.len() == m.len() && forall|k: int|
        0 <= k < r.len() ==> (#[trigger] r[k]).0 as int == m[k].0 && r[k].1@ == m[k].1
}

/// The exec triples `r` hold the values `m`.
pub open spec fn catalog_match(r: Seq<(usize, u64, String)>, m: Seq<(int, u64, Seq<char>)>) -> bool {
    r.len() == m.len() && forall|k: int|
        0 <= k < r.len() ==> (#[trigger] r[k]).0 as int == m[k].0 && r[k].1 == m[k].1 && r[k].2@
            == m[k].2
}

impl TaggingStore {
    /// Creates the private tag record for `tag_value` at time `now`.
    pub fn commit_private_tag(&mut self, tag_value: String, now: u64) -> (r: Result<EntryHash, TagError>)
        requires
            old(self).well_formed(),
        ensures
            final(self).well_formed(),
            (int_result(r), final(self)@) == old(self)@.commit_private_spec(tag_value@, now),
    {
        if self.find_private_tag(&tag_value).is_some() {
            return Err(TagError::DuplicateTag);
        }
        if !self.valid_length(&tag_value) {
            return Err(TagError::InvalidLength);
        }
        proof {
            lemma_indices_where_empty(self@.private_tag_pred(tag_value@), self@.nodes.len() as int);
            assert forall|i: int| 0 <= i < self@.nodes.len() implies !(#[trigger] self@.nodes[i]).is_private_tag(
                tag_value@,
            ) by {
                assert(!self@.private_tag_pred(tag_value@)(i));
            }
        }
        Ok(self.add_private_tag(tag_value, now))
    }

    /// Applies each distinct tag of `input` to its private target; new tag records get time
    /// `now`.
    pub fn tag_private_entry(&mut self, input: TaggingInput, now: u64) -> (r: Result<(), TagError>)
        requires
            old(self).well_formed(),
        ensures
            final(self).well_formed(),
            (r, final(self)@) == old(self)@.tag_private_spec(
                input.target as int,
                string_values(input.tags@),
                input.link_tag_to_entry@,
                now,
            ),
    {
        let tags = dedup_tags(&input.tags);
        let target = input.target;
        let g = self.query_private_entry(target);
        if g.is_err() {
            return g;
        }
        let ghost all = string_values(tags@);
        let ghost payload = input.link_tag_to_entry@;
        assert(all.subrange(0, all.len() as int) =~= all);
        let mut i: usize = 0;
        while i < tags.len()
            invariant
                self.well_formed(),
                i <= tags@.len(),
                all == string_values(tags@),
                payload == input.link_tag_to_entry@,
                target == input.target,
                target < self@.nodes.len(),
                old(self)@.tag_private_spec(target as int, string_values(input.tags@), payload, now)
                    == self@.tag_private_batch(
                    target as int,
                    all.subrange(i as int, all.len() as int),
                    payload,
                    now,
                ),
            decreases tags@.len() - i,
        {
            let ghost rest = all.subrange(i as int, all.len() as int);
            assert(rest[0] == tags@[i as int]@);
            assert(rest.drop_first() =~= all.subrange(i as int + 1, all.len() as int));
            let tag = &tags[i];
            let a = match self.find_private_tag(tag) {
                Some(a) => {
                    proof {
                        lemma_indices_where(
                            self@.private_tag_pred(tag@),
                            self@.nodes.len() as int,
                        );
                    }
                    a
                },
                None => match self.commit_private_tag(tag.clone(), now) {
                    Ok(a) => a,
                    Err(e) => {
                        return Err(e);
                    },
                },
            };
            self.add_link(a, target, TaggingLinkTypes::PrivateEntry, input.link_tag_to_entry.clone());
            self.add_link(target, a, TaggingLinkTypes::PrivateTags, String::new());
            i = i + 1;
        }
        Ok(())
    }

    /// Removes the private tag `input.tag` from its target.
    pub fn untag_private_entry(&mut self, input: UntagInput) -> (r: Result<(), TagError>)
        requires
            old(self).well_formed(),
        ensures
            final(self).well_formed(),
            (r, final(self)@) == old(self)@.untag_private_spec(input.target as int, input.tag@),
    {
        let target = input.target;
        let g = self.query_private_entry(target);
        if g.is_err() {
            return g;
        }
        let found = self.links_matching(target, TaggingLinkTypes::PrivateTags, None, Some(&input.tag));
        if found.len() != 1 {
            return Err(TagError::TagNotFound);
        }
        let k = found[0];
        proof {
            lemma_indices_where(
                self@.link_query(
                    target as int,
                    TaggingLinkTypes::PrivateTags,
                    None,
                    Some(input.tag@),
                ),
                self@.links.len() as int,
            );
        }
        let tag = self.link_target(k);
        self.tombstone(k);
        let back = self.links_matching(tag, TaggingLinkTypes::PrivateEntry, Some(target), None);
        if back.len() != 1 {
            return Err(TagError::ReverseLinkMissing);
        }
        proof {
            lemma_indices_where(
                self@.link_query(
                    tag as int,
                    TaggingLinkTypes::PrivateEntry,
                    Some(target as int),
                    None,
                ),
                self@.links.len() as int,
            );
        }
        self.tombstone(back[0]);
        Ok(())
    }
    /// Every private tag record: (address, creation time, value), in order of address.
    #[allow(non_snake_case)]
    pub fn query_all_PrivateTag(&self) -> (r: Vec<(EntryHash, u64, String)>)
        ensures
            catalog_match(r@, self@.private_catalog()),
    {
        let ghost p = self@.private_tag_node_pred();
        let n = self.node_count();
        let mut r: Vec<(EntryHash, u64, String)> = Vec::new();
        let mut i: usize = 0;
        while i < n
            invariant
                n == self@.nodes.len(),
                i <= n,
                p == self@.private_tag_node_pred(),
                catalog_match(
                    r@,
                    indices_where(p, i as int).map_values(
                        |j: int| (j, self@.nodes[j].created_at(), self@.nodes[j].tag_value()),
                    ),
                ),
            decreases n - i,
        {
            let kind = self.node_kind(i);
            if kind.0 {
                r.push((i, self.node_created_at(i), self.node_tag_value(i)));
            }
            i = i + 1;
        }
        r
    }

    /// The private tags applied to the private entry `eh`: (tag address, value).
    pub fn find_private_tags_for_entry(&self, eh: EntryHash) -> (r: Result<Vec<(EntryHash, String)>, TagError>)
        requires
            self.well_formed(),
        ensures
            match r {
                Ok(v) => self@.resolve(eh as int, Visibility::Private) is Ok && pairs_match(
                    v@,
                    self@.private_tags_of(eh as int),
                ),
                Err(e) => self@.resolve(eh as int, Visibility::Private) == Err::<(), TagError>(e),
            },
    {
        if let Err(e) = self.query_private_entry(eh) {
            return Err(e);
        }
        let ix = self.links_matching(eh, TaggingLinkTypes::PrivateTags, None, None);
        let ghost m = self@.live_from(eh as int, TaggingLinkTypes::PrivateTags);
        proof {
            lemma_indices_where(
                self@.link_query(eh as int, TaggingLinkTypes::PrivateTags, None, None),
                self@.links.len() as int,
            );
        }
        let mut r: Vec<(EntryHash, String)> = Vec::new();
        let mut k: usize = 0;
        while k < ix.len()
            invariant
                self.well_formed(),
                k <= ix@.len(),
                m == self@.live_from(eh as int, TaggingLinkTypes::PrivateTags),
                same_addresses(ix@, m),
                forall|j: int| 0 <= j < m.len() ==> 0 <= #[trigger] m[j] < self@.links.len(),
                pairs_match(r@, self@.private_tags_of(eh as int).take(k as int)),
            decreases ix@.len() - k,
        {
            let l = ix[k];
            assert(m[k as int] == l);
            let t = self.link_target(l);
            let v = self.node_tag_value(t);
            r.push((t, v));
            k = k + 1;
        }
        assert(self@.private_tags_of(eh as int).take(ix@.len() as int) =~= self@.private_tags_of(eh as int));
        Ok(r)
    }

    /// The entries tagged with the private tag `tag`: (entry address, payload); empty where the
    /// tag was never created.
    pub fn find_private_entries_with_tag(&self, tag: String) -> (r: Vec<(EntryHash, String)>)
        requires
            self.well_formed(),
        ensures
            pairs_match(r@, self@.private_entries_with(tag@)),
    {
        let mut r: Vec<(EntryHash, String)> = Vec::new();
        let a = match self.find_private_tag(&tag) {
            None => {
                return r;
            },
            Some(a) => a,
        };
        let ix = self.links_matching(a, TaggingLinkTypes::PrivateEntry, None, None);
        let ghost m = self@.live_from(a as int, TaggingLinkTypes::PrivateEntry);
        proof {
            lemma_indices_where(
                self@.link_query(a as int, TaggingLinkTypes::PrivateEntry, None, None),
                self@.links.len() as int,
            );
        }
        let ghost want = self@.private_entries_with(tag@);
        let mut k: usize = 0;
        while k < ix.len()
            invariant
                self.well_formed(),
                k <= ix@.len(),
                m == self@.live_from(a as int, TaggingLinkTypes::PrivateEntry),
                want == m.map_values(|i: int| (self@.links[i].target as int, self@.links[i].tag)),
                same_addresses(ix@, m),
                forall|j: int| 0 <= j < m.len() ==> 0 <= #[trigger] m[j] < self@.links.len(),
                pairs_match(r@, want.take(k as int)),
            decreases ix@.len() - k,
        {
            let l = ix[k];
            assert(m[k as int] == l);
            r.push((self.link_target(l), self.link_tag(l)));
            k = k + 1;
        }
        assert(want.take(ix@.len() as int) =~= want);
        r
    }
}

} // verus!
