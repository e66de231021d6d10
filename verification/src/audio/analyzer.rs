//! Grouping the bins of a spectrum into display bands: each band covers the
//! run of bins whose frequencies fall into it (the frequency of each bin is
//! placed on the band grid by the caller).

use vstd::prelude::*;

verus! {

/// The ranges after placing bin `j + 1` in band `band_of[j]` for every
/// entry: a band's range starts at its first bin and ends after its last
/// one; a band without bins stays `(0, 0)`.
pub open spec fn spec_band_ranges(band_of: Seq<usize>, bands: nat) -> Seq<(usize, usize)>
    decreases band_of.len(),
{
    if band_of.len() == 0 {
        Seq::new(bands, |b: int| (0usize, 0usize))
    } else {
        let prev = spec_band_ranges(band_of.drop_last(), bands);
        let i = band_of.len() as int;
        let b = band_of.last() as int;
        let e = prev[b];
        prev.update(
            b,
            if e.0 == e.1 {
                (i as usize, (i + 1) as usize)
            } else {
                (e.0, (i + 1) as usize)
            },
        )
    }
}

pub open spec fn bands_in_range(band_of: Seq<usize>, bands: nat) -> bool {
    forall|j: int| 0 <= j < band_of.len() ==> #[trigger] band_of[j] < bands
}

proof fn lemma_band_ranges_len(band_of: Seq<usize>, bands: nat)
    requires
        bands_in_range(band_of, bands),
    ensures
        spec_band_ranges(band_of, bands).len() == bands,
    decreases band_of.len(),
{
    if band_of.len() > 0 {
        let init = band_of.drop_last();
        assert forall|j: int| 0 <= j < init.len() implies #[trigger] init[j] < bands by {
            assert(init[j] == band_of[j]);
        }
        lemma_band_ranges_len(init, bands);
        assert(band_of[band_of.len() - 1] < bands);
    }
}

/// The bin ranges of `bands` bands, bin `j + 1` going to band `band_of[j]`
/// (see [`spec_band_ranges`]).
pub fn band_ranges_from(band_of: &[usize], bands: usize) -> (r: Vec<(usize, usize)>)
    requires
        bands_in_range(band_of@, bands as nat),
        band_of@.len() + 2 <= usize::MAX,
    ensures
        r@ == spec_band_ranges(band_of@, bands as nat),
{
    let mut ranges: Vec<(usize, usize)> = Vec::new();
    let mut b: usize = 0;
    while b < bands
        invariant
            b <= bands,
            ranges@ == Seq::new(b as nat, |k: int| (0usize, 0usize)),
        decreases bands - b,
    {
        ranges.push((0, 0));
        b += 1;
        assert(ranges@ =~= Seq::new(b as nat, |k: int| (0usize, 0usize)));
    }
    assert(band_of@.take(0) =~= Seq::<usize>::empty());
    let mut j: usize = 0;
    while j < band_of.len()
        invariant
            j <= band_of@.len(),
            band_of@.len() + 2 <= usize::MAX,
            bands_in_range(band_of@, bands as nat),
            ranges@ == spec_band_ranges(band_of@.take(j as int), bands as nat),
        decreases band_of.len() - j,
    {
        proof {
            lemma_band_ranges_len(band_of@.take(j as int), bands as nat);
            assert(band_of@.take(j + 1).drop_last() =~= band_of@.take(j as int));
        }
        let i = j + 1;
        let c = band_of[j];
        let e = ranges[c];
        let next = if e.0 == e.1 {
            (i, i + 1)
        } else {
            (e.0, i + 1)
        };
        ranges.set(c, next);
        j += 1;
    }
    assert(band_of@.take(band_of@.len() as int) =~= band_of@);
    ranges
}

/// With the bins in ascending band order, the ranges tile the bins: every
/// bin lies in the range of its own band and in no other, and a band
/// without bins has the empty range `(0, 0)`.
pub proof fn law_band_ranges_tile(band_of: Seq<usize>, bands: nat)
    requires
        bands_in_range(band_of, bands),
        band_of.len() + 2 <= usize::MAX,
        forall|j: int, k: int| 0 <= j <= k < band_of.len() ==> band_of[j] <= band_of[k],
    ensures
        ({
            let r = spec_band_ranges(band_of, bands);
            &&& r.len() == bands
            &&& forall|j: int|
                0 <= j < band_of.len() ==> r[#[trigger] band_of[j] as int].0 <= j + 1 < r[band_of[j] as int].1
            &&& forall|b: int, j: int|
                #![trigger r[b], band_of[j]]
                0 <= b < bands && 0 <= j < band_of.len() && r[b].0 <= j + 1 < r[b].1 ==> band_of[j]
                    == b
            &&& forall|b: int|
                0 <= b < bands && (forall|j: int| 0 <= j < band_of.len() ==> band_of[j] != b) ==> r[b]
                    == (0usize, 0usize)
        }),
    decreases band_of.len(),
{
    lemma_band_ranges_tile_ends(band_of, bands);
}

/// The tiling facts, with where each range ends.
proof fn lemma_band_ranges_tile_ends(band_of: Seq<usize>, bands: nat)
    requires
        bands_in_range(band_of, bands),
        band_of.len() + 2 <= usize::MAX,
        forall|j: int, k: int| 0 <= j <= k < band_of.len() ==> band_of[j] <= band_of[k],
    ensures
        ({
            let r = spec_band_ranges(band_of, bands);
            let n = band_of.len() as int;
            &&& r.len() == bands
            &&& forall|j: int| 0 <= j < n ==> r[#[trigger] band_of[j] as int].0 <= j + 1 < r[band_of[j] as int].1
            &&& forall|b: int, j: int|
                #![trigger r[b], band_of[j]]
                0 <= b < bands && 0 <= j < n && r[b].0 <= j + 1 < r[b].1 ==> band_of[j] == b
            &&& forall|b: int|
                0 <= b < bands && (forall|j: int| 0 <= j < n ==> band_of[j] != b) ==> r[b] == (
                0usize,
                0usize,
            )
            &&& forall|b: int| 0 <= b < bands ==> r[b].1 <= n + 1
            &&& forall|b: int| 0 <= b < bands ==> r[b].0 <= r[b].1
            &&& n > 0 ==> r[band_of[n - 1] as int].1 == n + 1
        }),
    decreases band_of.len(),
{
    lemma_band_ranges_len(band_of, bands);
    let n = band_of.len() as int;
    if n > 0 {
        let init = band_of.drop_last();
        assert forall|j: int| 0 <= j < init.len() implies #[trigger] init[j] < bands by {
            assert(init[j] == band_of[j]);
        }
        assert forall|j: int, k: int| 0 <= j <= k < init.len() implies init[j] <= init[k] by {
            assert(init[j] == band_of[j] && init[k] == band_of[k]);
        }
        lemma_band_ranges_tile_ends(init, bands);
        let prev = spec_band_ranges(init, bands);
        let r = spec_band_ranges(band_of, bands);
        let c = band_of[n - 1] as int;
        assert(band_of.last() == band_of[n - 1]);
        assert(c < bands) by {
            assert(band_of[n - 1] < bands);
        }
        let e = prev[c];
        let upd: (usize, usize) = if e.0 == e.1 {
            (n as usize, (n + 1) as usize)
        } else {
            (e.0, (n + 1) as usize)
        };
        assert(r == prev.update(c, upd));
        assert(r[c] == upd);
        assert(forall|b: int| 0 <= b < bands && b != c ==> r[b] == prev[b]);
        // Earlier bins are in bands no later than `c`; a band after every
        // earlier bin has had no bin yet.
        if n > 1 {
            assert(init[n - 2] == band_of[n - 2]);
            assert(band_of[n - 2] <= band_of[n - 1]);
        }
        if e.0 != e.1 {
            // `c` already has bins: they end right before this one.
            if n > 1 && init[n - 2] != c {
                assert(forall|j: int| 0 <= j < init.len() ==> init[j] != c) by {
                    assert forall|j: int| 0 <= j < init.len() implies init[j] != c by {
                        assert(init[j] == band_of[j]);
                        assert(band_of[j] <= band_of[n - 2]);
                    }
                }
                assert(false);
            }
            if n == 1 {
                assert(false);
            }
        }
        assert forall|j: int| 0 <= j < n implies r[#[trigger] band_of[j] as int].0 <= j + 1 < r[band_of[j] as int].1 by {
            if j < n - 1 {
                assert(init[j] == band_of[j]);
                assert(prev[init[j] as int].0 <= j + 1 < prev[init[j] as int].1);
                if band_of[j] as int == c {
                    assert(e.0 != e.1);
                    assert(e.1 <= n);
                } else {
                    assert(r[band_of[j] as int] == prev[band_of[j] as int]);
                }
            } else {
                assert(j == n - 1);
                assert(band_of[j] as int == c);
                assert(e.0 <= e.1 && e.1 <= n);
            }
        }
        assert forall|b: int, j: int|
            #![trigger r[b], band_of[j]]
            0 <= b < bands && 0 <= j < n && r[b].0 <= j + 1 < r[b].1 implies band_of[j] == b by {
            if j < n - 1 {
                assert(init[j] == band_of[j]);
                if b == c {
                    if e.0 == e.1 {
                        assert(r[b].0 == n);
                    } else {
                        if j + 1 < prev[b].1 {
                        } else {
                            assert(band_of[j] <= band_of[n - 1]);
                            assert(init[n - 2] == band_of[n - 2]);
                            assert(band_of[j] <= band_of[n - 2]);
                        }
                    }
                }
            } else {
                if b != c {
                    assert(prev[b].1 <= n);
                }
            }
        }
        assert forall|b: int|
            0 <= b < bands && (forall|j: int| 0 <= j < n ==> band_of[j] != b) implies r[b] == (
            0usize,
            0usize,
        ) by {
            assert forall|j: int| 0 <= j < init.len() implies init[j] != b by {
                assert(init[j] == band_of[j]);
            }
            assert(b != c);
        }
    }
}

} // verus!
