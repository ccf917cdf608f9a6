use vstd::prelude::*;

verus! {

/// The values of a list of strings.
pub open spec fn string_values(v: Seq<String>) -> Seq<Seq<char>> {
    v.map_values(|s: String| s@)
}

/// The list with each value kept at its first occurrence only.
pub open spec fn dedup(s: Seq<Seq<char>>) -> Seq<Seq<char>>
    decreases s.len(),
{
    if s.len() == 0 {
        s
    } else {
        let d = dedup(s.drop_last());
        if d.contains(s.last()) {
            d
        } else {
            d.push(s.last())
        }
    }
}

pub open spec fn no_duplicates(s: Seq<Seq<char>>) -> bool {
    forall|i: int, j: int| 0 <= i < j < s.len() ==> s[i] != s[j]
}

/// A value occurs in the deduplicated list exactly when it occurs in the list.
pub proof fn lemma_dedup_contains(s: Seq<Seq<char>>, x: Seq<char>)
    ensures
        dedup(s).contains(x) <==> s.contains(x),
    decreases s.len(),
{
    if s.len() > 0 {
        lemma_dedup_contains(s.drop_last(), x);
        let d = dedup(s.drop_last());
        if s.contains(x) && !s.drop_last().contains(x) {
            let i = choose|i: int| 0 <= i < s.len() && s[i] == x;
            if i < s.len() - 1 {
                assert(s.drop_last()[i] == x);
            }
            lemma_dedup_contains(s.drop_last(), s.last());
            assert(dedup(s)[d.len() as int] == x);
        }
        if s.drop_last().contains(x) {
            let i = choose|i: int| 0 <= i < s.len() - 1 && s.drop_last()[i] == x;
            assert(s[i] == x);
        }
        if dedup(s).contains(x) && !d.contains(x) {
            assert(x == s.last());
            assert(s[s.len() - 1] == x);
        }
        if d.contains(x) {
            let k = choose|k: int| 0 <= k < d.len() && d[k] == x;
            assert(dedup(s)[k] == x);
        }
    }
}

/// The deduplicated list holds each value once.
pub proof fn lemma_dedup_no_duplicates(s: Seq<Seq<char>>)
    ensures
        no_duplicates(dedup(s)),
    decreases s.len(),
{
    if s.len() > 0 {
        lemma_dedup_no_duplicates(s.drop_last());
    }
}

/// A list that holds each value once is its own deduplication.
pub proof fn lemma_dedup_of_distinct(s: Seq<Seq<char>>)
    requires
        no_duplicates(s),
    ensures
        dedup(s) == s,
    decreases s.len(),
{
    if s.len() > 0 {
        let t = s.drop_last();
        assert(no_duplicates(t));
        lemma_dedup_of_distinct(t);
        if t.contains(s.last()) {
            let i = choose|i: int| 0 <= i < t.len() && t[i] == s.last();
            assert(s[i] == s[s.len() - 1]);
        }
        assert(t.push(s.last()) =~= s);
    }
}

/// Deduplicating twice is deduplicating once.
pub proof fn lemma_dedup_idempotent(s: Seq<Seq<char>>)
    ensures
        dedup(dedup(s)) == dedup(s),
{
    lemma_dedup_no_duplicates(s);
    lemma_dedup_of_distinct(dedup(s));
}

/// The tags with each value kept at its first occurrence.
pub fn dedup_tags(tags: &Vec<String>) -> (r: Vec<String>)
    ensures
        string_values(r@) == dedup(string_values(tags@)),
{
    let ghost all = string_values(tags@);
    let mut out: Vec<String> = Vec::new();
    let mut i: usize = 0;
    while i < tags.len()
        invariant
            i <= tags@.len(),
            all == string_values(tags@),
            string_values(out@) == dedup(all.subrange(0, i as int)),
        decreases tags@.len() - i,
    {
        let t = &tags[i];
        let mut seen = false;
        let mut j: usize = 0;
        while j < out.len()
            invariant
                j <= out@.len(),
                seen <==> exists|k: int| 0 <= k < j && out@[k]@ == t@,
            decreases out@.len() - j,
        {
            if out[j] == *t {
                seen = true;
            }
            j = j + 1;
        }
        let ghost prefix = all.subrange(0, i as int + 1);
        assert(prefix.drop_last() =~= all.subrange(0, i as int));
        assert(prefix.last() == t@);
        proof {
            let d = string_values(out@);
            if seen {
                let k = choose|k: int| 0 <= k < j && out@[k]@ == t@;
                assert(d[k] == t@);
            } else {
                assert forall|k: int| 0 <= k < d.len() implies d[k] != t@ by {
                    assert(d[k] == out@[k]@);
                }
            }
        }
        if !seen {
            out.push(t.clone());
            assert(string_values(out@) =~= string_values(out@).drop_last().push(t@));
        }
        i = i + 1;
    }
    assert(all.subrange(0, tags@.len() as int) =~= all);
    out
}

} // verus!
