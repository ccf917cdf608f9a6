use vstd::prelude::*;
use crate::dedup::{
    dedup, lemma_dedup_contains, lemma_dedup_idempotent, lemma_dedup_no_duplicates, no_duplicates,
};
use crate::indices::{
    indices_where, lemma_indices_where, lemma_indices_where_agree, lemma_indices_where_empty,
    lemma_indices_where_skip,
};
use crate::store::StoreV;
use crate::types::{NodeV, TagError, TaggingLinkTypes, Visibility};

verus! {

/// Once a private tag value has been created, creating it again fails as a duplicate and
/// changes nothing.
pub proof fn lemma_private_tag_unique(s: StoreV, v: Seq<char>, now: u64, later: u64)
    requires
        s.commit_private_spec(v, now).0 is Ok,
    ensures
        s.commit_private_spec(v, now).1.commit_private_spec(v, later) == (
            Err::<int, TagError>(TagError::DuplicateTag),
            s.commit_private_spec(v, now).1,
        ),
{
    let s1 = s.commit_private_spec(v, now).1;
    let n = s.nodes.len() as int;
    assert(s1.nodes[n] == NodeV::PrivateTag { value: v, created_at: now });
    assert(s1.private_tag_pred(v)(n));
    lemma_indices_where(s1.private_tag_pred(v), n + 1);
}

/// Publishing a public tag a second time returns the same address and writes nothing.
pub proof fn lemma_publish_idempotent(s: StoreV, v: Seq<char>)
    requires
        s.publish_spec(v).0 is Ok,
    ensures
        s.publish_spec(v).1.publish_spec(v) == (s.publish_spec(v).0, s.publish_spec(v).1),
{
    if s.find_public(v) is None {
        let s1 = s.publish_spec(v).1;
        let n = s.nodes.len() as int;
        lemma_indices_where_agree(s.public_tag_pred(v), s1.public_tag_pred(v), n);
        assert(s1.nodes[n] == NodeV::PublicTag(v));
        assert(s1.public_tag_pred(v)(n));
        assert(indices_where(s1.public_tag_pred(v), n + 1) == seq![n]);
    }
}

/// Applying one private tag to a private entry that had none, then removing it, leaves the
/// entry with no private tag.
pub proof fn lemma_private_round_trip(
    s: StoreV,
    target: int,
    v: Seq<char>,
    payload: Seq<char>,
    now: u64,
)
    requires
        s.wf(),
        s.private_tags_of(target).len() == 0,
        s.tag_private_spec(target, seq![v], payload, now).0 is Ok,
    ensures
        s.tag_private_spec(target, seq![v], payload, now).1.untag_private_spec(
            target,
            v,
        ).1.private_tags_of(target).len() == 0,
{
    let one = seq![v];
    assert(one.drop_last() =~= Seq::<Seq<char>>::empty());
    assert(dedup(Seq::<Seq<char>>::empty()) == Seq::<Seq<char>>::empty());
    assert(!Seq::<Seq<char>>::empty().contains(v));
    assert(dedup(one) =~= one);
    assert(one.drop_first() =~= Seq::<Seq<char>>::empty());
    let stepped = s.tag_private_step(target, v, payload, now).1;
    assert(stepped.tag_private_batch(target, Seq::empty(), payload, now) == (
        Ok::<(), TagError>(()),
        stepped,
    ));
    let st = s.resolve_private_tag(v, now);
    let s0 = st.1;
    let a = st.0->Ok_0;
    let s1 = s.tag_private_spec(target, one, payload, now).1;
    let len = s.links.len() as int;
    let nn = s.nodes.len() as int;
    // the tag resolved to a private tag record of value v
    if s.find_private(v) is Some {
        lemma_indices_where(s.private_tag_pred(v), nn);
        assert(s.private_tag_pred(v)(a));
    } else {
        assert(s0.nodes[nn] == NodeV::PrivateTag { value: v, created_at: now });
    }
    assert(s0.nodes[a].is_private_tag(v));
    assert(s1.links.len() == len + 2);
    // before the new pair, no live link leaves the target towards a private tag
    let none = s.link_query(target, TaggingLinkTypes::PrivateTags, None, None);
    lemma_indices_where_empty(none, len);
    let q = s1.link_query(target, TaggingLinkTypes::PrivateTags, None, Some(v));
    assert forall|i: int| 0 <= i < len implies !#[trigger] q(i) by {
        assert(s1.links[i] == s.links[i]);
        assert(!none(i));
    }
    lemma_indices_where_empty(q, len);
    assert(!q(len));
    lemma_indices_where_skip(q, len);
    assert(q(len + 1));
    let m = indices_where(q, len + 2);
    assert(m == seq![len + 1]);
    assert(s1.nodes[target] == s.nodes[target]);
    let s2 = s1.tombstoned(len + 1);
    let tag = s1.links[len + 1].target as int;
    let back = s2.link_query(tag, TaggingLinkTypes::PrivateEntry, Some(target), None);
    let m2 = indices_where(back, s2.links.len() as int);
    lemma_indices_where(back, s2.links.len() as int);
    let s3 = s1.untag_private_spec(target, v).1;
    assert(s3 == if m2.len() != 1 {
        s2
    } else {
        s2.tombstoned(m2[0])
    });
    assert(s3.links.len() == len + 2);
    assert(s3.links[len + 1].deleted);
    assert forall|i: int| 0 <= i < len + 2 implies (#[trigger] s3.links[i]).base == s1.links[i].base
        && s3.links[i].link_type == s1.links[i].link_type && (s1.links[i].deleted
        ==> s3.links[i].deleted) by {}
    let all = s3.link_query(target, TaggingLinkTypes::PrivateTags, None, None);
    assert forall|i: int| 0 <= i < len + 2 implies !#[trigger] all(i) by {
        assert(s3.links[i].base == s1.links[i].base);
        if i < len {
            assert(s1.links[i] == s.links[i]);
            assert(!none(i));
        }
    }
    lemma_indices_where_empty(all, s3.links.len() as int);
}

/// Applying one public tag to a public entry that had none, then removing the pair through the
/// tag-to-entry link that tagging returned, succeeds with that link and leaves the entry with no
/// public tag.
pub proof fn lemma_public_round_trip(s: StoreV, target: int, v: Seq<char>, payload: Seq<char>)
    requires
        s.wf(),
        s.public_tags_of(target).len() == 0,
        s.tag_public_spec(target, seq![v], payload).0 is Ok,
    ensures
        ({
            let t = s.tag_public_spec(target, seq![v], payload);
            let f = t.0->Ok_0;
            let u = t.1.untag_public_spec(f[0]);
            f.len() == 1 && u.0 == Ok::<int, TagError>(f[0]) && u.1.public_tags_of(target).len()
                == 0
        }),
{
    let one = seq![v];
    assert(one.drop_last() =~= Seq::<Seq<char>>::empty());
    assert(dedup(Seq::<Seq<char>>::empty()) == Seq::<Seq<char>>::empty());
    assert(!Seq::<Seq<char>>::empty().contains(v));
    assert(dedup(one) =~= one);
    assert(one.drop_first() =~= Seq::<Seq<char>>::empty());
    let len = s.links.len() as int;
    let st = s.tag_public_step(target, v, payload);
    let stepped = st.1;
    assert(stepped.tag_public_batch(target, Seq::empty(), payload, seq![len]) == (
        Ok::<Seq<int>, TagError>(seq![len]),
        stepped,
    ));
    assert(Seq::<int>::empty().push(len) =~= seq![len]);
    let pub_st = s.publish_spec(v);
    let a = pub_st.0->Ok_0;
    let nn = s.nodes.len() as int;
    if s.find_public(v) is Some {
        lemma_indices_where(s.public_tag_pred(v), nn);
    }
    assert(0 <= a < pub_st.1.nodes.len());
    let s1 = s.tag_public_spec(target, one, payload).1;
    assert(s1 == stepped);
    assert(s1.links.len() == len + 2);
    assert(s1.links[len].base == a && s1.links[len].target == target);
    let none = s.link_query(target, TaggingLinkTypes::PublicTags, None, None);
    lemma_indices_where_empty(none, len);
    let q = s1.link_query(target, TaggingLinkTypes::PublicTags, Some(a), None);
    assert forall|i: int| 0 <= i < len implies !#[trigger] q(i) by {
        assert(s1.links[i] == s.links[i]);
        assert(!none(i));
    }
    lemma_indices_where_empty(q, len);
    assert(!q(len));
    lemma_indices_where_skip(q, len);
    assert(q(len + 1));
    assert(indices_where(q, len + 2) == seq![len + 1]);
    let s3 = s1.untag_public_spec(len).1;
    assert(s3 == s1.tombstoned(len).tombstoned(len + 1));
    let all = s3.link_query(target, TaggingLinkTypes::PublicTags, None, None);
    assert forall|i: int| 0 <= i < len + 2 implies !#[trigger] all(i) by {
        if i < len {
            assert(s1.links[i] == s.links[i]);
            assert(!none(i));
        }
    }
    lemma_indices_where_empty(all, s3.links.len() as int);
}

/// In a well-formed store, a private tag record is the only one of its value: looking the value
/// up finds its address.
pub proof fn lemma_private_tag_address(s: StoreV, i: int, v: Seq<char>)
    requires
        s.wf(),
        0 <= i < s.nodes.len(),
        s.nodes[i].is_private_tag(v),
    ensures
        s.find_private(v) == Some(i),
{
    let p = s.private_tag_pred(v);
    let n = s.nodes.len() as int;
    assert(p(i));
    lemma_indices_where(p, n);
    let m = indices_where(p, n);
    assert(m.len() > 0);
    assert(p(m[0]));
    assert(s.nodes[m[0]].tag_value() == s.nodes[i].tag_value());
}

/// In a well-formed store, a public tag path is the only one of its value: publishing the value
/// again returns its address and writes nothing.
pub proof fn lemma_public_tag_address(s: StoreV, i: int, v: Seq<char>)
    requires
        s.wf(),
        0 <= i < s.nodes.len(),
        s.nodes[i].is_public_tag(v),
    ensures
        s.find_public(v) == Some(i),
        s.publish_spec(v) == (Ok::<int, TagError>(i), s),
{
    let p = s.public_tag_pred(v);
    let n = s.nodes.len() as int;
    assert(p(i));
    lemma_indices_where(p, n);
    let m = indices_where(p, n);
    assert(m.len() > 0);
    assert(p(m[0]));
    assert(s.nodes[m[0]].tag_value() == s.nodes[i].tag_value());
}

/// Applying one private tag to a private entry that carries no live private tag link in either
/// direction, then removing it, succeeds.
pub proof fn lemma_private_round_trip_succeeds(
    s: StoreV,
    target: int,
    v: Seq<char>,
    payload: Seq<char>,
    now: u64,
)
    requires
        s.wf(),
        s.private_tags_of(target).len() == 0,
        forall|i: int|
            0 <= i < s.links.len() && !(#[trigger] s.links[i]).deleted && s.links[i].link_type
                == TaggingLinkTypes::PrivateEntry ==> s.links[i].target != target,
        s.tag_private_spec(target, seq![v], payload, now).0 is Ok,
    ensures
        s.tag_private_spec(target, seq![v], payload, now).1.untag_private_spec(target, v).0
            == Ok::<(), TagError>(()),
{
    lemma_private_round_trip(s, target, v, payload, now);
    let one = seq![v];
    assert(one.drop_last() =~= Seq::<Seq<char>>::empty());
    assert(dedup(Seq::<Seq<char>>::empty()) == Seq::<Seq<char>>::empty());
    assert(!Seq::<Seq<char>>::empty().contains(v));
    assert(dedup(one) =~= one);
    assert(one.drop_first() =~= Seq::<Seq<char>>::empty());
    let stepped = s.tag_private_step(target, v, payload, now).1;
    assert(stepped.tag_private_batch(target, Seq::empty(), payload, now) == (
        Ok::<(), TagError>(()),
        stepped,
    ));
    let st = s.resolve_private_tag(v, now);
    let a = st.0->Ok_0;
    let s1 = s.tag_private_spec(target, one, payload, now).1;
    let len = s.links.len() as int;
    let nn = s.nodes.len() as int;
    if s.find_private(v) is Some {
        lemma_indices_where(s.private_tag_pred(v), nn);
        assert(s.private_tag_pred(v)(a));
    }
    assert(s1.links.len() == len + 2);
    assert(s1.nodes[target] == s.nodes[target]);
    // the forward search finds only the new entry-to-tag link
    let none = s.link_query(target, TaggingLinkTypes::PrivateTags, None, None);
    lemma_indices_where_empty(none, len);
    let q = s1.link_query(target, TaggingLinkTypes::PrivateTags, None, Some(v));
    assert forall|i: int| 0 <= i < len implies !#[trigger] q(i) by {
        assert(s1.links[i] == s.links[i]);
        assert(!none(i));
    }
    lemma_indices_where_empty(q, len);
    lemma_indices_where_skip(q, len);
    assert(q(len + 1));
    assert(indices_where(q, len + 2) == seq![len + 1]);
    // the reverse search finds only the new tag-to-entry link
    let s2 = s1.tombstoned(len + 1);
    assert(s1.links[len + 1].target == a);
    let back = s2.link_query(a, TaggingLinkTypes::PrivateEntry, Some(target), None);
    assert forall|i: int| 0 <= i < len implies !#[trigger] back(i) by {
        assert(s2.links[i] == s.links[i]);
    }
    lemma_indices_where_empty(back, len);
    assert(back(len));
    assert(indices_where(back, len + 1) == seq![len]);
    assert(!back(len + 1));
    lemma_indices_where_skip(back, len + 1);
}

/// Creating a private tag `r`, then applying `r` and a new tag `b` to a private entry that
/// carries no live private tag link, writes four links: a live pair for each tag. Removing `r`
/// then tombstones exactly the pair of `r`, and the entry is left with `b` alone.
pub proof fn lemma_private_two_tags_then_untag_one(
    s: StoreV,
    target: int,
    r: Seq<char>,
    b: Seq<char>,
    payload: Seq<char>,
    now: u64,
    later: u64,
)
    requires
        s.wf(),
        s.resolve(target, Visibility::Private) is Ok,
        s.private_tags_of(target).len() == 0,
        forall|i: int|
            0 <= i < s.links.len() && !(#[trigger] s.links[i]).deleted && s.links[i].link_type
                == TaggingLinkTypes::PrivateEntry ==> s.links[i].target != target,
        r != b,
        s.commit_private_spec(r, now).0 is Ok,
        s.find_private(b) is None,
        s.valid_length(b),
    ensures
        ({
            let n = s.nodes.len() as int;
            let len = s.links.len() as int;
            let s1 = s.commit_private_spec(r, now).1;
            let t = s1.tag_private_spec(target, seq![r, b], payload, later);
            let u = t.1.untag_private_spec(target, r);
            &&& s.commit_private_spec(r, now).0 == Ok::<int, TagError>(n)
            &&& t.0 == Ok::<(), TagError>(())
            &&& t.1.links.len() == len + 4
            &&& t.1.links.subrange(0, len) == s.links
            &&& forall|i: int| len <= i < len + 4 ==> !(#[trigger] t.1.links[i]).deleted
            &&& u.0 == Ok::<(), TagError>(())
            &&& u.1 == t.1.tombstoned(len + 1).tombstoned(len)
            &&& u.1.private_tags_of(target) == seq![(n + 1, b)]
        }),
{
    let n = s.nodes.len() as int;
    let len = s.links.len() as int;
    let s1 = s.commit_private_spec(r, now).1;
    // r is new in s and found at n in s1
    let pr = s.private_tag_pred(r);
    let pr1 = s1.private_tag_pred(r);
    lemma_indices_where_agree(pr, pr1, n);
    assert(pr1(n));
    assert(indices_where(pr1, n + 1) == seq![n]);
    assert(s1.find_private(r) == Some(n));
    // b stays new in s1
    let pb = s.private_tag_pred(b);
    let pb1 = s1.private_tag_pred(b);
    lemma_indices_where_agree(pb, pb1, n);
    assert(!pb1(n));
    lemma_indices_where_skip(pb1, n);
    assert(s1.find_private(b) is None);
    // the distinct tags are r then b
    let two = seq![r, b];
    assert(two.drop_last() =~= seq![r]);
    assert(seq![r].drop_last() =~= Seq::<Seq<char>>::empty());
    assert(dedup(Seq::<Seq<char>>::empty()) == Seq::<Seq<char>>::empty());
    assert(!Seq::<Seq<char>>::empty().contains(r));
    assert(dedup(seq![r]) =~= seq![r]);
    assert(!seq![r].contains(b)) by {
        assert(seq![r][0] != b);
    }
    assert(dedup(two) =~= two);
    assert(two.drop_first() =~= seq![b]);
    assert(seq![b].drop_first() =~= Seq::<Seq<char>>::empty());
    // the first step reuses r's record
    let s2 = s1.tag_private_step(target, r, payload, later).1;
    assert(s2 == s1.with_link(n, target, TaggingLinkTypes::PrivateEntry, payload).with_link(
        target,
        n,
        TaggingLinkTypes::PrivateTags,
        Seq::empty(),
    ));
    // the second step creates b's record at n + 1
    let pb2 = s2.private_tag_pred(b);
    lemma_indices_where_agree(pb1, pb2, n + 1);
    assert(s2.find_private(b) is None);
    let s3 = s2.with_node(NodeV::PrivateTag { value: b, created_at: later });
    assert(s2.resolve_private_tag(b, later) == (Ok::<int, TagError>(n + 1), s3));
    let s4 = s2.tag_private_step(target, b, payload, later).1;
    assert(s4 == s3.with_link(n + 1, target, TaggingLinkTypes::PrivateEntry, payload).with_link(
        target,
        n + 1,
        TaggingLinkTypes::PrivateTags,
        Seq::empty(),
    ));
    assert(s4.tag_private_batch(target, Seq::empty(), payload, later) == (
        Ok::<(), TagError>(()),
        s4,
    ));
    assert(s2.tag_private_batch(target, seq![b], payload, later) == (Ok::<(), TagError>(()), s4));
    let t = s1.tag_private_spec(target, two, payload, later);
    assert(s1.nodes[target] == s.nodes[target]);
    assert(t == (Ok::<(), TagError>(()), s4));
    assert(s4.links.subrange(0, len) =~= s.links);
    assert(s4.nodes[n].is_private_tag(r));
    assert(s4.nodes[n + 1].is_private_tag(b));
    assert(s4.nodes[target] == s.nodes[target]);
    // the forward search for r finds only the link at len + 1
    let none = s.link_query(target, TaggingLinkTypes::PrivateTags, None, None);
    lemma_indices_where_empty(none, len);
    let q = s4.link_query(target, TaggingLinkTypes::PrivateTags, None, Some(r));
    assert forall|i: int| 0 <= i < len implies !#[trigger] q(i) by {
        assert(s4.links[i] == s.links[i]);
        assert(!none(i));
    }
    lemma_indices_where_empty(q, len);
    lemma_indices_where_skip(q, len);
    assert(q(len + 1));
    assert(indices_where(q, len + 2) == seq![len + 1]);
    assert(!q(len + 2));
    lemma_indices_where_skip(q, len + 2);
    assert(!q(len + 3));
    lemma_indices_where_skip(q, len + 3);
    // the reverse search finds only the link at len
    let s5 = s4.tombstoned(len + 1);
    let back = s5.link_query(n, TaggingLinkTypes::PrivateEntry, Some(target), None);
    assert forall|i: int| 0 <= i < len implies !#[trigger] back(i) by {
        assert(s5.links[i] == s.links[i]);
    }
    lemma_indices_where_empty(back, len);
    assert(back(len));
    assert(indices_where(back, len + 1) == seq![len]);
    assert(!back(len + 1));
    lemma_indices_where_skip(back, len + 1);
    assert(!back(len + 2));
    lemma_indices_where_skip(back, len + 2);
    assert(!back(len + 3));
    lemma_indices_where_skip(back, len + 3);
    let s6 = s5.tombstoned(len);
    assert(s4.untag_private_spec(target, r) == (Ok::<(), TagError>(()), s6));
    // b alone is left
    let left = s6.link_query(target, TaggingLinkTypes::PrivateTags, None, None);
    assert forall|i: int| 0 <= i < len implies !#[trigger] left(i) by {
        assert(s6.links[i] == s.links[i]);
        assert(!none(i));
    }
    lemma_indices_where_empty(left, len);
    lemma_indices_where_skip(left, len);
    lemma_indices_where_skip(left, len + 1);
    lemma_indices_where_skip(left, len + 2);
    assert(left(len + 3));
    assert(indices_where(left, len + 4) == seq![len + 3]);
    assert(s6.private_tags_of(target) =~= seq![(n + 1, b)]);
}

/// After a successful publish, the store holds exactly one public tag path of that value, at
/// the address returned, and stays well formed.
pub proof fn lemma_publish_keeps_one(s: StoreV, v: Seq<char>)
    requires
        s.wf(),
        s.publish_spec(v).0 is Ok,
    ensures
        ({
            let (r, s1) = s.publish_spec(v);
            let a = r->Ok_0;
            &&& s1.wf()
            &&& 0 <= a < s1.nodes.len()
            &&& s1.nodes[a].is_public_tag(v)
            &&& forall|i: int|
                0 <= i < s1.nodes.len() && (#[trigger] s1.nodes[i]).is_public_tag(v) ==> i == a
        }),
{
    let n = s.nodes.len() as int;
    let p = s.public_tag_pred(v);
    lemma_indices_where(p, n);
    let s1 = s.publish_spec(v).1;
    let a = s.publish_spec(v).0->Ok_0;
    if s.find_public(v) is None {
        lemma_indices_where_empty(p, n);
        assert forall|i: int, j: int|
            0 <= i < s1.nodes.len() && 0 <= j < s1.nodes.len() && ((#[trigger] s1.nodes[i]
                is PrivateTag && s1.nodes[j] is PrivateTag) || (s1.nodes[i] is PublicTag
                && s1.nodes[j] is PublicTag)) && s1.nodes[i].tag_value()
                == (#[trigger] s1.nodes[j]).tag_value() implies i == j by {
            if i < n && j < n {
                assert(s1.nodes[i] == s.nodes[i] && s1.nodes[j] == s.nodes[j]);
            } else if i < n {
                assert(!p(i));
            } else if j < n {
                assert(!p(j));
            }
        }
        assert forall|i: int|
            0 <= i < s1.nodes.len() && (#[trigger] s1.nodes[i]).is_public_tag(v) implies i
                == a by {
            if i < n {
                assert(!p(i));
            }
        }
    } else {
        assert(p(a));
        assert forall|i: int|
            0 <= i < s1.nodes.len() && (#[trigger] s1.nodes[i]).is_public_tag(v) implies i
                == a by {
            assert(s.nodes[i].tag_value() == s.nodes[a].tag_value());
        }
    }
}

/// Deduplicating a list of tags keeps each of its values exactly once and adds none.
pub proof fn lemma_dedup_set_semantics(tags: Seq<Seq<char>>)
    ensures
        no_duplicates(dedup(tags)),
        forall|x: Seq<char>| #[trigger] dedup(tags).contains(x) <==> tags.contains(x),
{
    lemma_dedup_no_duplicates(tags);
    assert forall|x: Seq<char>| #[trigger] dedup(tags).contains(x) <==> tags.contains(x) by {
        lemma_dedup_contains(tags, x);
    }
}

/// Tagging with a list of private tags writes exactly what tagging with its distinct tags
/// writes, and returns the same.
pub proof fn lemma_tag_private_dedup(
    s: StoreV,
    target: int,
    tags: Seq<Seq<char>>,
    payload: Seq<char>,
    now: u64,
)
    ensures
        s.tag_private_spec(target, tags, payload, now) == s.tag_private_spec(
            target,
            dedup(tags),
            payload,
            now,
        ),
{
    lemma_dedup_idempotent(tags);
}

/// Tagging with a list of public tags writes exactly what tagging with its distinct tags
/// writes, and returns the same.
pub proof fn lemma_tag_public_dedup(s: StoreV, target: int, tags: Seq<Seq<char>>, payload: Seq<char>)
    ensures
        s.tag_public_spec(target, tags, payload) == s.tag_public_spec(target, dedup(tags), payload),
{
    lemma_dedup_idempotent(tags);
}

/// Private tags are never applied to a public target, nor public tags to a private one: the
/// call fails with a visibility violation and writes nothing.
pub proof fn lemma_visibility_enforced(
    s: StoreV,
    target: int,
    tags: Seq<Seq<char>>,
    payload: Seq<char>,
    now: u64,
)
    requires
        0 <= target < s.nodes.len(),
    ensures
        s.nodes[target].visibility() == Visibility::Public ==> s.tag_private_spec(
            target,
            tags,
            payload,
            now,
        ) == (Err::<(), TagError>(TagError::VisibilityViolation), s),
        s.nodes[target].visibility() == Visibility::Private ==> s.tag_public_spec(
            target,
            tags,
            payload,
        ) == (Err::<Seq<int>, TagError>(TagError::VisibilityViolation), s),
{
}

} // verus!
