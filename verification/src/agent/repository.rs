//! The article store's records and the pieces of its queries that do not need
//! the database: the keyword pattern and the market-snapshot sources.
use vstd::prelude::*;

verus! {

/// A full stored article, including the body `content`.
pub struct Article {
    pub id: i64,
    pub title: String,
    pub url: String,
    pub source: String,
    pub category: String,
    pub summary: Option<String>,
    pub content: Option<String>,
    pub published_at: String,
}

/// One daily market-snapshot record (Fear & Greed, market overview, or DeFi TVL).
pub struct SnapshotItem {
    pub id: i64,
    pub title: String,
    pub source: String,
    pub category: String,
    pub summary: Option<String>,
    pub content: Option<String>,
    pub published_at: String,
}

/// The market-snapshot sources, in the order their snapshots are reported.
/// Each fetcher writes one row per day, so a source's newest row is today's
/// reading.
pub open spec fn snapshot_sources_spec() -> Seq<Seq<char>> {
    seq!["fear-greed"@, "coingecko"@, "defillama"@]
}

/// The market-snapshot sources, in the order their snapshots are reported.
pub fn snapshot_sources() -> (v: Vec<&'static str>)
    ensures
        v@.len() == 3,
        forall|i: int| 0 <= i < 3 ==> (#[trigger] v@[i])@ == snapshot_sources_spec()[i],
{
    let mut v: Vec<&'static str> = Vec::new();
    v.push("fear-greed");
    v.push("coingecko");
    v.push("defillama");
    v
}

/// The SQL `LIKE` pattern that matches any text containing `query`.
pub fn like_pattern(query: &str) -> (p: String)
    ensures
        p@ == seq!['%'] + query@ + seq!['%'],
{
    let r = String::from_str("%").concat(query).concat("%");
    proof {
        reveal_strlit("%");
    }
    r
}

/// The values present, in order.
pub open spec fn present<T>(found: Seq<Option<T>>) -> Seq<T>
    decreases found.len(),
{
    if found.len() == 0 {
        seq![]
    } else {
        let rest = present(found.drop_last());
        match found.last() {
            Some(x) => rest.push(x),
            None => rest,
        }
    }
}

/// The market snapshot from each source's newest row (`None` for a source
/// with no rows yet): the rows found, in source order; sources without rows
/// are simply omitted.
pub fn latest_snapshots(found: Vec<Option<SnapshotItem>>) -> (v: Vec<SnapshotItem>)
    ensures
        v@ == present(found@),
{
    let mut v: Vec<SnapshotItem> = Vec::new();
    let mut rest = found;
    let ghost all = rest@;
    assert(all.take(all.len() as int) =~= all);
    let mut back: Vec<SnapshotItem> = Vec::new();
    // Take the rows from the back, then restore their order.
    while rest.len() > 0
        invariant
            rest@.len() <= all.len(),
            rest@ == all.take(rest@.len() as int),
            present(all) == present(rest@) + back@.reverse(),
        decreases rest.len(),
    {
        let ghost before = rest@;
        let last = rest.pop().unwrap();
        assert(before.drop_last() == rest@);
        assert(all.take(rest@.len() as int) =~= all.take(before.len() as int).drop_last());
        match last {
            Some(x) => {
                proof {
                    assert(back@.push(x).reverse() =~= seq![x] + back@.reverse());
                    assert(present(before) == present(rest@).push(x));
                    assert(present(rest@).push(x) + back@.reverse() =~= present(rest@) + (seq![x] + back@.reverse()));
                }
                back.push(x);
            },
            None => {
                assert(present(before) == present(rest@));
            },
        }
    }
    assert(present(rest@) =~= seq![]);
    while back.len() > 0
        invariant
            present(all) == v@ + back@.reverse(),
        decreases back.len(),
    {
        let ghost b0 = back@;
        let x = back.pop().unwrap();
        proof {
            assert(b0 == back@.push(x));
            assert(back@.push(x).reverse() =~= seq![x] + back@.reverse());
            assert(v@ + (seq![x] + back@.reverse()) =~= v@.push(x) + back@.reverse());
        }
        v.push(x);
    }
    assert(v@ + back@.reverse() =~= v@);
    v
}

} // verus!
