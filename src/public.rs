use vstd::prelude::*;
use crate::dedup::{dedup, dedup_tags, string_values};
use crate::indices::{indices_where, lemma_indices_where, lemma_indices_where_empty};
use crate::private::{int_result, pairs_match};
use crate::store::{StoreV, TaggingStore, same_addresses};
use crate::types::{ActionHash, EntryHash, NodeV, TagError, TaggingInput, TaggingLinkTypes, Visibility};

verus! {

/// The link addresses of a result, as integers.
pub open spec fn addresses_result(r: Result<Vec<ActionHash>, TagError>) -> Result<Seq<int>, TagError> {
    match r {
        Ok(v) => Ok(v@.map_values(|x: usize| x as int)),
        Err(e) => Err(e),
    }
}

/// The exec triples `r` hold the values `m`.
pub open spec fn entries_match(r: Seq<(usize, usize, String)>, m: Seq<(int, int, Seq<char>)>) -> bool {
    r.len() == m.len() && forall|k: int|
        0 <= k < r.len() ==> (#[trigger] r[k]).0 as int == m[k].0 && r[k].1 as int == m[k].1
            && r[k].2@ == m[k].2
}

impl StoreV {
    pub open spec fn public_tag_node_pred(self) -> spec_fn(int) -> bool {
        |i: int| 0 <= i < self.nodes.len() && self.nodes[i] is PublicTag
    }

    /// Every public tag path, in order of address: (address, value).
    pub open spec fn public_catalog(self) -> Seq<(int, Seq<char>)> {
        indices_where(self.public_tag_node_pred(), self.nodes.len() as int).map_values(
            |i: int| (i, self.nodes[i].tag_value()),
        )
    }

    /// Publishing a public tag: the existing path for `v` if there is one; else, for a value of
    /// valid length, a new path.
    pub open spec fn publish_spec(self, v: Seq<char>) -> (Result<int, TagError>, StoreV) {
        match self.find_public(v) {
            Some(a) => (Ok(a), self),
            None => if !self.valid_length(v) {
                (Err(TagError::InvalidLength), self)
            } else {
                (Ok(self.nodes.len() as int), self.with_node(NodeV::PublicTag(v)))
            },
        }
    }

    /// Applying one public tag: publish it, then write the link from the tag to the target
    /// (carrying `payload`) and the link back (carrying the tag's value). The result is the
    /// address of the first of the two.
    pub open spec fn tag_public_step(self, target: int, v: Seq<char>, payload: Seq<char>) -> (Result<int, TagError>, StoreV) {
        let st = self.publish_spec(v);
        match st.0 {
            Err(e) => (Err(e), st.1),
            Ok(a) => (
                Ok(st.1.links.len() as int),
                st.1.with_link(a, target, TaggingLinkTypes::PublicEntry, payload).with_link(
                    target,
                    a,
                    TaggingLinkTypes::PublicTags,
                    v,
                ),
            ),
        }
    }

    /// Applying the tags in order after the links `done`, stopping at the first failure; what
    /// was written stays.
    pub open spec fn tag_public_batch(
        self,
        target: int,
        tags: Seq<Seq<char>>,
        payload: Seq<char>,
        done: Seq<int>,
    ) -> (Result<Seq<int>, TagError>, StoreV)
        decreases tags.len(),
    {
        if tags.len() == 0 {
            (Ok(done), self)
        } else {
            let st = self.tag_public_step(target, tags[0], payload);
            match st.0 {
                Err(e) => (Err(e), st.1),
                Ok(f) => st.1.tag_public_batch(target, tags.drop_first(), payload, done.push(f)),
            }
        }
    }

    /// Tagging a public target: the guard, then each distinct tag once; the result lists the
    /// tag-to-target links written.
    pub open spec fn tag_public_spec(
        self,
        target: int,
        tags: Seq<Seq<char>>,
        payload: Seq<char>,
    ) -> (Result<Seq<int>, TagError>, StoreV) {
        match self.resolve(target, Visibility::Public) {
            Err(e) => (Err(e), self),
            Ok(_) => self.tag_public_batch(target, dedup(tags), payload, Seq::empty()),
        }
    }

    /// The values of the public tags applied to `target`.
    pub open spec fn public_tags_of(self, target: int) -> Seq<Seq<char>> {
        self.live_from(target, TaggingLinkTypes::PublicTags).map_values(
            |i: int| self.links[i].tag,
        )
    }

    /// The entries tagged with the public tag `v`: (link address, entry address, payload) for
    /// each live link from its path; none where no path exists.
    pub open spec fn public_entries_with(self, v: Seq<char>) -> Seq<(int, int, Seq<char>)> {
        match self.find_public(v) {
            None => Seq::empty(),
            Some(a) => self.live_from(a, TaggingLinkTypes::PublicEntry).map_values(
                |i: int| (i, self.links[i].target as int, self.links[i].tag),
            ),
        }
    }

    /// Removing the tag pair whose tag-to-target link is at `k`: the first live link back from
    /// the target to the same tag is found, then both are tombstoned.
    pub open spec fn untag_public_spec(self, k: int) -> (Result<int, TagError>, StoreV) {
        if !(0 <= k < self.links.len()) {
            (Err(TagError::NotFound), self)
        } else {
            let l = self.links[k];
            let m = self.links_where(
                l.target as int,
                TaggingLinkTypes::PublicTags,
                Some(l.base as int),
                None,
            );
            if m.len() == 0 {
                (Err(TagError::ReverseLinkMissing), self)
            } else {
                (Ok(k), self.tombstoned(k).tombstoned(m[0]))
            }
        }
    }
}

impl TaggingStore {
    /// Every public tag: (path address, value), in order of address.
    pub fn probe_public_tags(&self) -> (r: Vec<(EntryHash, String)>)
        ensures
            pairs_match(r@, self@.public_catalog()),
    {
        let ghost p = self@.public_tag_node_pred();
        let n = self.node_count();
        let mut r: Vec<(EntryHash, String)> = Vec::new();
        let mut i: usize = 0;
        while i < n
            invariant
                n == self@.nodes.len(),
                i <= n,
                p == self@.public_tag_node_pred(),
                pairs_match(
                    r@,
                    indices_where(p, i as int).map_values(|j: int| (j, self@.nodes[j].tag_value())),
                ),
            decreases n - i,
        {
            let kind = self.node_kind(i);
            if kind.1 {
                r.push((i, self.node_tag_value(i)));
            }
            i = i + 1;
        }
        r
    }

    /// Publishes the public tag `tag_value`; returns the address of its path.
    pub fn publish_public_tag(&mut self, tag_value: String) -> (r: Result<EntryHash, TagError>)
        requires
            old(self).well_formed(),
        ensures
            final(self).well_formed(),
            (int_result(r), final(self)@) == old(self)@.publish_spec(tag_value@),
    {
        if let Some(a) = self.find_public_tag(&tag_value) {
            return Ok(a);
        }
        if !self.valid_length(&tag_value) {
            return Err(TagError::InvalidLength);
        }
        proof {
            lemma_indices_where_empty(self@.public_tag_pred(tag_value@), self@.nodes.len() as int);
            assert forall|i: int| 0 <= i < self@.nodes.len() implies !(#[trigger] self@.nodes[i]).is_public_tag(
                tag_value@,
            ) by {
                assert(!self@.public_tag_pred(tag_value@)(i));
            }
        }
        Ok(self.add_public_tag(tag_value))
    }

    /// Applies each distinct tag of `input` to its public target; returns the addresses of the
    /// tag-to-target links written.
    pub fn tag_public_entry(&mut self, input: TaggingInput) -> (r: Result<Vec<ActionHash>, TagError>)
        requires
            old(self).well_formed(),
        ensures
            final(self).well_formed(),
            (addresses_result(r), final(self)@) == old(self)@.tag_public_spec(
                input.target as int,
                string_values(input.tags@),
                input.link_tag_to_entry@,
            ),
    {
        let tags = dedup_tags(&input.tags);
        let target = input.target;
        if let Err(e) = self.fetch_public_entry(target) {
            return Err(e);
        }
        let ghost all = string_values(tags@);
        let ghost payload = input.link_tag_to_entry@;
        let mut out: Vec<ActionHash> = Vec::new();
        assert(all.subrange(0, all.len() as int) =~= all);
        assert(out@.map_values(|x: usize| x as int) =~= Seq::<int>::empty());
        let mut i: usize = 0;
        while i < tags.len()
            invariant
                self.well_formed(),
                i <= tags@.len(),
                all == string_values(tags@),
                payload == input.link_tag_to_entry@,
                target == input.target,
                target < self@.nodes.len(),
                old(self)@.tag_public_spec(target as int, string_values(input.tags@), payload)
                    == self@.tag_public_batch(
                    target as int,
                    all.subrange(i as int, all.len() as int),
                    payload,
                    out@.map_values(|x: usize| x as int),
                ),
            decreases tags@.len() - i,
        {
            let ghost rest = all.subrange(i as int, all.len() as int);
            assert(rest[0] == tags@[i as int]@);
            assert(rest.drop_first() =~= all.subrange(i as int + 1, all.len() as int));
            let tag = &tags[i];
            let a = match self.publish_public_tag(tag.clone()) {
                Ok(a) => a,
                Err(e) => {
                    return Err(e);
                },
            };
            proof {
                lemma_indices_where(self@.public_tag_pred(tag@), self@.nodes.len() as int);
            }
            let f = self.add_link(
                a,
                target,
                TaggingLinkTypes::PublicEntry,
                input.link_tag_to_entry.clone(),
            );
            self.add_link(target, a, TaggingLinkTypes::PublicTags, tag.clone());
            let ghost before = out@.map_values(|x: usize| x as int);
            out.push(f);
            assert(out@.map_values(|x: usize| x as int) =~= before.push(f as int));
            i = i + 1;
        }
        Ok(out)
    }

    /// The values of the public tags applied to the public entry `eh`.
    pub fn find_public_tags_for_entry(&self, eh: EntryHash) -> (r: Result<Vec<String>, TagError>)
        requires
            self.well_formed(),
        ensures
            match r {
                Ok(v) => self@.resolve(eh as int, Visibility::Public) is Ok && string_values(v@)
                    == self@.public_tags_of(eh as int),
                Err(e) => self@.resolve(eh as int, Visibility::Public) == Err::<(), TagError>(e),
            },
    {
        if let Err(e) = self.fetch_public_entry(eh) {
            return Err(e);
        }
        let ix = self.links_matching(eh, TaggingLinkTypes::PublicTags, None, None);
        let ghost m = self@.live_from(eh as int, TaggingLinkTypes::PublicTags);
        proof {
            lemma_indices_where(
                self@.link_query(eh as int, TaggingLinkTypes::PublicTags, None, None),
                self@.links.len() as int,
            );
        }
        let mut r: Vec<String> = Vec::new();
        let mut k: usize = 0;
        while k < ix.len()
            invariant
                self.well_formed(),
                k <= ix@.len(),
                m == self@.live_from(eh as int, TaggingLinkTypes::PublicTags),
                same_addresses(ix@, m),
                forall|j: int| 0 <= j < m.len() ==> 0 <= #[trigger] m[j] < self@.links.len(),
                string_values(r@) == self@.public_tags_of(eh as int).take(k as int),
            decreases ix@.len() - k,
        {
            let l = ix[k];
            assert(m[k as int] == l);
            let ghost before = r@;
            r.push(self.link_tag(l));
            assert(string_values(r@) =~= string_values(before).push(self@.links[l as int].tag));
            assert(string_values(r@) =~= self@.public_tags_of(eh as int).take(k as int + 1));
            k = k + 1;
        }
        assert(self@.public_tags_of(eh as int).take(ix@.len() as int) =~= self@.public_tags_of(
            eh as int,
        ));
        Ok(r)
    }

    /// The entries tagged with the public tag `tag`: (link address, entry address, payload);
    /// empty where the tag was never published.
    pub fn find_public_entries_with_tag(&self, tag: String) -> (r: Vec<(ActionHash, EntryHash, String)>)
        requires
            self.well_formed(),
        ensures
            entries_match(r@, self@.public_entries_with(tag@)),
    {
        let mut r: Vec<(ActionHash, EntryHash, String)> = Vec::new();
        let a = match self.find_public_tag(&tag) {
            None => {
                return r;
            },
            Some(a) => a,
        };
        let ix = self.links_matching(a, TaggingLinkTypes::PublicEntry, None, None);
        let ghost m = self@.live_from(a as int, TaggingLinkTypes::PublicEntry);
        proof {
            lemma_indices_where(
                self@.link_query(a as int, TaggingLinkTypes::PublicEntry, None, None),
                self@.links.len() as int,
            );
        }
        let ghost want = self@.public_entries_with(tag@);
        let mut k: usize = 0;
        while k < ix.len()
            invariant
                self.well_formed(),
                k <= ix@.len(),
                m == self@.live_from(a as int, TaggingLinkTypes::PublicEntry),
                want == m.map_values(
                    |i: int| (i, self@.links[i].target as int, self@.links[i].tag),
                ),
                same_addresses(ix@, m),
                forall|j: int| 0 <= j < m.len() ==> 0 <= #[trigger] m[j] < self@.links.len(),
                entries_match(r@, want.take(k as int)),
            decreases ix@.len() - k,
        {
            let l = ix[k];
            assert(m[k as int] == l);
            r.push((l, self.link_target(l), self.link_tag(l)));
            k = k + 1;
        }
        assert(want.take(ix@.len() as int) =~= want);
        r
    }

    /// The links from the public tag `tag` to entries, split for observers that reconcile
    /// incremental state: the live ones, then the tombstoned ones; both empty where the tag was
    /// never published.
    pub fn find_public_entry_links_with_tag(&self, tag: String) -> (r: (Vec<ActionHash>, Vec<ActionHash>))
        requires
            self.well_formed(),
        ensures
            match self@.find_public(tag@) {
                None => r.0@.len() == 0 && r.1@.len() == 0,
                Some(a) => same_addresses(r.0@, self@.live_from(a, TaggingLinkTypes::PublicEntry))
                    && same_addresses(r.1@, self@.tombstoned_from(a, TaggingLinkTypes::PublicEntry)),
            },
    {
        match self.find_public_tag(&tag) {
            None => (Vec::new(), Vec::new()),
            Some(a) => (
                self.links_matching(a, TaggingLinkTypes::PublicEntry, None, None),
                self.tombstoned_links_from(a, TaggingLinkTypes::PublicEntry),
            ),
        }
    }

    /// Removes the public tag pair whose tag-to-target link is at `link_ah`; returns `link_ah`.
    pub fn untag_public_entry(&mut self, link_ah: ActionHash) -> (r: Result<ActionHash, TagError>)
        requires
            old(self).well_formed(),
        ensures
            final(self).well_formed(),
            (int_result(r), final(self)@) == old(self)@.untag_public_spec(link_ah as int),
    {
        if link_ah >= self.link_count() {
            return Err(TagError::NotFound);
        }
        let base = self.link_base(link_ah);
        let target = self.link_target(link_ah);
        let back = self.links_matching(target, TaggingLinkTypes::PublicTags, Some(base), None);
        if back.len() == 0 {
            return Err(TagError::ReverseLinkMissing);
        }
        proof {
            lemma_indices_where(
                self@.link_query(
                    target as int,
                    TaggingLinkTypes::PublicTags,
                    Some(base as int),
                    None,
                ),
                self@.links.len() as int,
            );
            assert(back@[0] as int == self@.links_where(
                target as int,
                TaggingLinkTypes::PublicTags,
                Some(base as int),
                None,
            )[0]);
        }
        let reverse = back[0];
        assert(reverse < self@.links.len());
        self.tombstone(link_ah);
        self.tombstone(reverse);
        Ok(link_ah)
    }
}

} // verus!
