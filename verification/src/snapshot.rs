//! Durable snapshots of the cached prices, and the lookup that seeds
//! synthesis from them after a cold start.

use crate::fixed::Amount;
use crate::price_cache::cached_price;
use crate::price_cache::PriceCache;
use crate::price_cache::PriceCacheView;
use vstd::prelude::*;

verus! {

/// One row of the snapshot table. The table only grows.
#[derive(Clone, Copy, Debug, PartialEq, Eq, Structural)]
pub struct PriceSnapshot {
    pub asset_id: i32,
    pub price: Amount,
    pub created_at: i64,
}

/// The rows that a snapshot at `now` writes for `assets`: one for each
/// asset with a cached price, in the order of `assets`; an asset without a
/// cached price is passed over.
pub open spec fn snapshot_rows(cache: PriceCacheView, assets: Seq<i32>, now: i64) -> Seq<
    PriceSnapshot,
>
    decreases assets.len(),
{
    if assets.len() == 0 {
        Seq::empty()
    } else {
        let before = snapshot_rows(cache, assets.drop_last(), now);
        match cached_price(cache, assets.last()) {
            Some(price) => before.push(
                PriceSnapshot { asset_id: assets.last(), price: price, created_at: now },
            ),
            None => before,
        }
    }
}

/// The latest row of `asset` in `table`: the one with the greatest
/// `created_at`, and among equals the one written last.
pub open spec fn latest_row(table: Seq<PriceSnapshot>, asset: i32) -> Option<PriceSnapshot>
    decreases table.len(),
{
    if table.len() == 0 {
        None
    } else {
        let before = latest_row(table.drop_last(), asset);
        let row = table.last();
        if row.asset_id == asset && (before is None || before.unwrap().created_at
            <= row.created_at) {
            Some(row)
        } else {
            before
        }
    }
}

/// Every row of a snapshot carries the cached price of its asset and the
/// moment of the snapshot, and every asset with a cached price has a row.
pub proof fn lemma_snapshot_rows(cache: PriceCacheView, assets: Seq<i32>, now: i64)
    ensures
        snapshot_rows(cache, assets, now).len() <= assets.len(),
        forall|i: int|
            0 <= i < snapshot_rows(cache, assets, now).len() ==> {
                let row = #[trigger] snapshot_rows(cache, assets, now)[i];
                &&& assets.contains(row.asset_id)
                &&& cached_price(cache, row.asset_id) == Some(row.price)
                &&& row.created_at == now
            },
        forall|k: int|
            0 <= k < assets.len() && cached_price(cache, #[trigger] assets[k]) is Some ==> exists|
                i: int,
            |
                0 <= i < snapshot_rows(cache, assets, now).len() && (#[trigger] snapshot_rows(
                    cache,
                    assets,
                    now,
                )[i]).asset_id == assets[k],
    decreases assets.len(),
{
    if assets.len() > 0 {
        let init = assets.drop_last();
        lemma_snapshot_rows(cache, init, now);
        let before = snapshot_rows(cache, init, now);
        let rows = snapshot_rows(cache, assets, now);
        assert forall|i: int| 0 <= i < rows.len() implies {
            let row = #[trigger] rows[i];
            &&& assets.contains(row.asset_id)
            &&& cached_price(cache, row.asset_id) == Some(row.price)
            &&& row.created_at == now
        } by {
            if i < before.len() {
                assert(rows[i] == before[i]);
                let j = choose|j: int| 0 <= j < init.len() && init[j] == before[i].asset_id;
                assert(assets[j] == before[i].asset_id);
            } else {
                assert(assets[assets.len() - 1] == rows[i].asset_id);
            }
        }
        assert forall|k: int|
            0 <= k < assets.len() && cached_price(cache, #[trigger] assets[k]) is Some implies exists|
            i: int,
        |
            0 <= i < rows.len() && (#[trigger] rows[i]).asset_id == assets[k] by {
            if k < assets.len() - 1 {
                assert(init[k] == assets[k]);
                let i = choose|i: int|
                    0 <= i < before.len() && (#[trigger] before[i]).asset_id == init[k];
                assert(rows[i].asset_id == assets[k]);
            } else {
                assert(rows[rows.len() - 1].asset_id == assets[k]);
            }
        }
    }
}

/// The latest row of an asset is a row of that asset in the table, and no
/// row of the asset is more recent.
pub proof fn lemma_latest_row(table: Seq<PriceSnapshot>, asset: i32)
    ensures
        latest_row(table, asset) matches Some(row) ==> row.asset_id == asset && table.contains(row),
        latest_row(table, asset) is None <==> forall|i: int|
            0 <= i < table.len() ==> (#[trigger] table[i]).asset_id != asset,
        forall|i: int|
            0 <= i < table.len() && (#[trigger] table[i]).asset_id == asset ==> table[i].created_at
                <= latest_row(table, asset).unwrap().created_at,
    decreases table.len(),
{
    if table.len() > 0 {
        let init = table.drop_last();
        lemma_latest_row(init, asset);
        let before = latest_row(init, asset);
        let found = latest_row(table, asset);
        if found is Some {
            if found == before {
                let j = choose|j: int| 0 <= j < init.len() && init[j] == before.unwrap();
                assert(table[j] == found.unwrap());
            } else {
                assert(table[table.len() - 1] == found.unwrap());
            }
        }
        assert forall|i: int| 0 <= i < table.len() && (#[trigger] table[i]).asset_id
            == asset implies table[i].created_at <= found.unwrap().created_at by {
            if i < table.len() - 1 {
                assert(init[i] == table[i]);
            }
        }
        if found is None {
            assert forall|i: int| 0 <= i < table.len() implies (#[trigger] table[i]).asset_id
                != asset by {
                if i < table.len() - 1 {
                    assert(init[i] == table[i]);
                }
            }
        } else {
            if before is Some {
                let j = choose|j: int| 0 <= j < init.len() && init[j] == before.unwrap();
                assert(table[j].asset_id == asset);
            } else {
                assert(table[table.len() - 1].asset_id == asset);
            }
        }
    }
}

/// Copies the cached price of every asset of `assets` that has one into the
/// snapshot table, stamped with `now`. Returns the number of rows written.
pub fn save_prices_executor(
    cache: &PriceCache,
    assets: &Vec<i32>,
    table: &mut Vec<PriceSnapshot>,
    now: i64,
) -> (written: usize)
    ensures
        final(table)@ == old(table)@ + snapshot_rows(cache@, assets@, now),
        written == snapshot_rows(cache@, assets@, now).len(),
{
    let mut i: usize = 0;
    let mut count: usize = 0;
    proof {
        assert(assets@.subrange(0, 0) =~= Seq::<i32>::empty());
        assert(table@ =~= old(table)@ + snapshot_rows(cache@, assets@.subrange(0, 0), now));
    }
    while i < assets.len()
        invariant
            0 <= i <= assets@.len(),
            count == snapshot_rows(cache@, assets@.subrange(0, i as int), now).len(),
            count <= i,
            table@ == old(table)@ + snapshot_rows(cache@, assets@.subrange(0, i as int), now),
        decreases assets@.len() - i,
    {
        let asset = assets[i];
        proof {
            let next = assets@.subrange(0, i + 1);
            assert(next.drop_last() =~= assets@.subrange(0, i as int));
            assert(next.last() == asset);
        }
        match cache.price_of(asset) {
            Some(price) => {
                table.push(PriceSnapshot { asset_id: asset, price: price, created_at: now });
                count += 1;
                proof {
                    let before = snapshot_rows(cache@, assets@.subrange(0, i as int), now);
                    let row = PriceSnapshot { asset_id: asset, price: price, created_at: now };
                    assert(table@ =~= old(table)@ + before.push(row));
                }
            },
            None => {},
        }
        i += 1;
    }
    proof {
        assert(assets@.subrange(0, assets@.len() as int) =~= assets@);
    }
    count
}

/// The price that seeds synthesis for `asset_id` when the cache is cold:
/// that of the asset's latest snapshot, if it has one.
pub fn latest_snapshot_price(table: &Vec<PriceSnapshot>, asset_id: i32) -> (r: Option<Amount>)
    ensures
        r == match latest_row(table@, asset_id) {
            Some(row) => Some(row.price),
            None => None,
        },
{
    let mut found: Option<PriceSnapshot> = None;
    let mut i: usize = 0;
    proof {
        assert(table@.subrange(0, 0) =~= Seq::<PriceSnapshot>::empty());
    }
    while i < table.len()
        invariant
            0 <= i <= table@.len(),
            found == latest_row(table@.subrange(0, i as int), asset_id),
        decreases table@.len() - i,
    {
        let row = table[i];
        proof {
            let next = table@.subrange(0, i + 1);
            assert(next.drop_last() =~= table@.subrange(0, i as int));
            assert(next.last() == row);
        }
        let newer = match found {
            Some(f) => f.created_at <= row.created_at,
            None => true,
        };
        if row.asset_id == asset_id && newer {
            found = Some(row);
        }
        i += 1;
    }
    proof {
        assert(table@.subrange(0, table@.len() as int) =~= table@);
    }
    match found {
        Some(row) => Some(row.price),
        None => None,
    }
}

/// Why the cached price of an asset could not be read.
#[derive(Clone, Copy, Debug, PartialEq, Eq, Structural)]
pub enum ReadFailure {
    /// The cache did not answer.
    Unavailable,
    /// The cache holds a text that is no price.
    Unparseable,
}

/// What came of reading the cached price of one asset: the price, nothing
/// where the cache is cold for the asset, or a failure.
pub struct PriceRead {
    pub asset_id: i32,
    pub outcome: Result<Option<Amount>, ReadFailure>,
}

/// The price that a read brought, if it brought one.
pub open spec fn price_read(read: PriceRead) -> Option<Amount> {
    match read.outcome {
        Ok(Some(price)) => Some(price),
        _ => None,
    }
}

/// The rows that a snapshot at `now` writes for `reads`: one for each read
/// that brought a price, in the order of the reads. A failed read and a
/// cold cache give no row and hold no other row back.
pub open spec fn rows_of_reads(reads: Seq<PriceRead>, now: i64) -> Seq<PriceSnapshot>
    decreases reads.len(),
{
    if reads.len() == 0 {
        Seq::empty()
    } else {
        let before = rows_of_reads(reads.drop_last(), now);
        match price_read(reads.last()) {
            Some(price) => before.push(
                PriceSnapshot { asset_id: reads.last().asset_id, price: price, created_at: now },
            ),
            None => before,
        }
    }
}

/// Every row comes from a read that brought its price, and every read that
/// brought a price has its row.
pub proof fn lemma_rows_of_reads(reads: Seq<PriceRead>, now: i64)
    ensures
        rows_of_reads(reads, now).len() <= reads.len(),
        forall|i: int|
            0 <= i < rows_of_reads(reads, now).len() ==> {
                let row = #[trigger] rows_of_reads(reads, now)[i];
                &&& row.created_at == now
                &&& exists|k: int|
                    0 <= k < reads.len() && (#[trigger] reads[k]).asset_id == row.asset_id
                        && price_read(reads[k]) == Some(row.price)
            },
        forall|k: int|
            0 <= k < reads.len() && price_read(#[trigger] reads[k]) is Some ==> rows_of_reads(
                reads,
                now,
            ).contains(
                PriceSnapshot {
                    asset_id: reads[k].asset_id,
                    price: price_read(reads[k]).unwrap(),
                    created_at: now,
                },
            ),
    decreases reads.len(),
{
    if reads.len() > 0 {
        let init = reads.drop_last();
        lemma_rows_of_reads(init, now);
        let before = rows_of_reads(init, now);
        let rows = rows_of_reads(reads, now);
        assert forall|i: int| 0 <= i < rows.len() implies {
            let row = #[trigger] rows[i];
            &&& row.created_at == now
            &&& exists|k: int|
                0 <= k < reads.len() && (#[trigger] reads[k]).asset_id == row.asset_id
                    && price_read(reads[k]) == Some(row.price)
        } by {
            if i < before.len() {
                assert(rows[i] == before[i]);
                let k = choose|k: int|
                    0 <= k < init.len() && (#[trigger] init[k]).asset_id == before[i].asset_id
                        && price_read(init[k]) == Some(before[i].price);
                assert(reads[k] == init[k]);
            } else {
                assert(reads[reads.len() - 1].asset_id == rows[i].asset_id);
            }
        }
        assert forall|k: int|
            0 <= k < reads.len() && price_read(#[trigger] reads[k]) is Some implies rows.contains(
            PriceSnapshot {
                asset_id: reads[k].asset_id,
                price: price_read(reads[k]).unwrap(),
                created_at: now,
            },
        ) by {
            let row = PriceSnapshot {
                asset_id: reads[k].asset_id,
                price: price_read(reads[k]).unwrap(),
                created_at: now,
            };
            if k < reads.len() - 1 {
                assert(init[k] == reads[k]);
                let i = choose|i: int| 0 <= i < before.len() && before[i] == row;
                assert(rows[i] == row);
            } else {
                assert(rows[rows.len() - 1] == row);
            }
        }
    }
}

/// The rows to persist from what was read of the cache at `now`. A read
/// that failed or found no price is passed over; every other read gives its
/// row, whatever became of the reads around it.
pub fn snapshot_of_reads(reads: &Vec<PriceRead>, now: i64) -> (r: Vec<PriceSnapshot>)
    ensures
        r@ == rows_of_reads(reads@, now),
        r@.len() <= reads@.len(),
        forall|k: int|
            0 <= k < reads@.len() && price_read(#[trigger] reads@[k]) is Some ==> r@.contains(
                PriceSnapshot {
                    asset_id: reads@[k].asset_id,
                    price: price_read(reads@[k]).unwrap(),
                    created_at: now,
                },
            ),
{
    let mut out: Vec<PriceSnapshot> = Vec::new();
    let mut i: usize = 0;
    proof {
        assert(reads@.subrange(0, 0) =~= Seq::<PriceRead>::empty());
    }
    while i < reads.len()
        invariant
            0 <= i <= reads@.len(),
            out@ == rows_of_reads(reads@.subrange(0, i as int), now),
        decreases reads@.len() - i,
    {
        proof {
            let next = reads@.subrange(0, i + 1);
            assert(next.drop_last() =~= reads@.subrange(0, i as int));
            assert(next.last() == reads@[i as int]);
        }
        let asset_id = reads[i].asset_id;
        match reads[i].outcome {
            Ok(Some(price)) => {
                out.push(PriceSnapshot { asset_id: asset_id, price: price, created_at: now });
            },
            _ => {},
        }
        i += 1;
    }
    proof {
        assert(reads@.subrange(0, reads@.len() as int) =~= reads@);
        lemma_rows_of_reads(reads@, now);
    }
    out
}

} // verus!
