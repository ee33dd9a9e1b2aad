//! The search engine: validation of a radius-and-category query and the
//! selection, among records whose distances the datastore computed, of the
//! nearest matching ones.
use vstd::prelude::*;

use crate::business::Business;
use crate::category::{includes_category, BusinessCategory};

verus! {

/// How many results a search returns when the caller names no limit.
pub const DEFAULT_SEARCH_LIMIT: i64 = 50;

/// A query for businesses of one category within a radius of a point.
/// Coordinates are in units of 1e-7 degree.
#[derive(Clone, Copy, Debug)]
pub struct SearchByRadiusAndCategoryQuery {
    pub latitude_e7: i32,
    pub longitude_e7: i32,
    pub radius_km: i32,
    pub category: BusinessCategory,
    pub limit: Option<i64>,
}

/// A validated query: the radius in meters and the limit are positive.
#[derive(Clone, Copy, Debug)]
pub struct SearchParams {
    pub latitude_e7: i32,
    pub longitude_e7: i32,
    pub radius_m: u64,
    pub category: BusinessCategory,
    pub limit: u64,
}

/// Why a query was rejected.
#[derive(Clone, Copy, Debug, PartialEq, Eq, Structural)]
pub enum SearchError {
    /// The radius is zero or negative.
    NonPositiveRadius,
    /// The limit is zero or negative.
    NonPositiveLimit,
}

/// The limit a query asks for: its own, or the default.
pub open spec fn requested_limit(limit: Option<i64>) -> i64 {
    match limit {
        Some(l) => l,
        None => DEFAULT_SEARCH_LIMIT,
    }
}

impl SearchByRadiusAndCategoryQuery {
    /// Checks the query: the radius must be positive, and so must the limit,
    /// which is `DEFAULT_SEARCH_LIMIT` when absent.
    pub fn validate(&self) -> (r: Result<SearchParams, SearchError>)
        ensures
            r == self.validate_spec(),
    {
        if self.radius_km <= 0 {
            return Err(SearchError::NonPositiveRadius);
        }
        let limit = match self.limit {
            Some(l) => l,
            None => DEFAULT_SEARCH_LIMIT,
        };
        if limit <= 0 {
            return Err(SearchError::NonPositiveLimit);
        }
        Ok(
            SearchParams {
                latitude_e7: self.latitude_e7,
                longitude_e7: self.longitude_e7,
                radius_m: self.radius_km as u64 * 1000,
                category: self.category,
                limit: limit as u64,
            },
        )
    }
}

/// A stored business and its distance in meters from the query point, as
/// the datastore computed it, rounded up.
#[derive(Clone, Debug)]
pub struct SearchCandidate {
    pub business: Business,
    pub distance_m: u64,
}

/// A candidate lies within the radius and has the category.
pub open spec fn qualifies(c: SearchCandidate, p: SearchParams) -> bool {
    c.distance_m <= p.radius_m && c.business.categories@.contains(p.category)
}

/// Candidate `i` comes before candidate `j`: it is nearer, or as near and
/// earlier in the datastore's order.
pub open spec fn precedes(cs: Seq<SearchCandidate>, i: int, j: int) -> bool {
    ||| cs[i].distance_m < cs[j].distance_m
    ||| cs[i].distance_m == cs[j].distance_m && i < j
}

/// `picks` are the positions of the qualifying candidates, nearest first,
/// as many as the limit allows: every qualifying candidate left out comes
/// after all picked ones, and only when the limit is reached.
pub open spec fn is_nearest_selection(
    cs: Seq<SearchCandidate>,
    p: SearchParams,
    picks: Seq<usize>,
) -> bool {
    &&& picks.len() <= p.limit
    &&& forall|k: int|
        0 <= k < picks.len() ==> picks[k] < cs.len() && qualifies(cs[#[trigger] picks[k] as int], p)
    &&& forall|k: int, l: int|
        0 <= k < l < picks.len() ==> precedes(cs, #[trigger] picks[k] as int, #[trigger] picks[l] as int)
    &&& forall|i: int|
        0 <= i < cs.len() && qualifies(cs[i], p) && !(#[trigger] picks.contains(i as usize)) ==> {
            &&& picks.len() == p.limit
            &&& forall|k: int| 0 <= k < picks.len() ==> precedes(cs, #[trigger] picks[k] as int, i)
        }
}

/// The picks of a nearest selection lie within the radius, have the
/// category, are no more than the limit, and are ordered by distance.
pub proof fn lemma_nearest_selection_contract(
    cs: Seq<SearchCandidate>,
    p: SearchParams,
    picks: Seq<usize>,
)
    requires
        is_nearest_selection(cs, p, picks),
    ensures
        picks.len() <= p.limit,
        forall|k: int|
            0 <= k < picks.len() ==> (#[trigger] cs[picks[k] as int]).distance_m <= p.radius_m
                && cs[picks[k] as int].business.categories@.contains(p.category),
        forall|k: int, l: int|
            0 <= k < l < picks.len() ==> (#[trigger] cs[picks[k] as int]).distance_m
                <= (#[trigger] cs[picks[l] as int]).distance_m,
{
    assert forall|k: int| 0 <= k < picks.len() implies (#[trigger] cs[picks[k] as int]).distance_m
        <= p.radius_m && cs[picks[k] as int].business.categories@.contains(p.category) by {
        assert(qualifies(cs[picks[k] as int], p));
    }
    assert forall|k: int, l: int| 0 <= k < l < picks.len() implies (#[trigger] cs[
        picks[k] as int
    ]).distance_m <= (#[trigger] cs[picks[l] as int]).distance_m by {
        assert(precedes(cs, picks[k] as int, picks[l] as int));
    }
}

proof fn lemma_selections_agree_at(
    cs: Seq<SearchCandidate>,
    p: SearchParams,
    a: Seq<usize>,
    b: Seq<usize>,
    k: int,
)
    requires
        is_nearest_selection(cs, p, a),
        is_nearest_selection(cs, p, b),
        0 <= k < a.len(),
        k < b.len(),
        forall|j: int| 0 <= j < k ==> a[j] == b[j],
    ensures
        a[k] == b[k],
{
    lemma_first_in_other(cs, p, a, b, k);
    lemma_first_in_other(cs, p, b, a, k);
}

proof fn lemma_first_in_other(
    cs: Seq<SearchCandidate>,
    p: SearchParams,
    a: Seq<usize>,
    b: Seq<usize>,
    k: int,
)
    requires
        is_nearest_selection(cs, p, a),
        is_nearest_selection(cs, p, b),
        0 <= k < a.len(),
        k < b.len(),
        forall|j: int| 0 <= j < k ==> a[j] == b[j],
    ensures
        !precedes(cs, a[k] as int, b[k] as int),
{
    if precedes(cs, a[k] as int, b[k] as int) {
        let x = a[k];
        assert(qualifies(cs[x as int], p));
        assert forall|j: int| 0 <= j < b.len() implies b[j] != x by {
            if j < k {
                assert(a[j] == b[j]);
                assert(precedes(cs, a[j] as int, a[k] as int));
            } else if j > k {
                assert(precedes(cs, b[k] as int, b[j] as int));
            }
        }
        let i = x as int;
        assert(i as usize == x);
        assert(!b.contains(i as usize));
        assert(precedes(cs, b[k] as int, i));
    }
}

proof fn lemma_selections_agree_below(
    cs: Seq<SearchCandidate>,
    p: SearchParams,
    a: Seq<usize>,
    b: Seq<usize>,
    n: int,
)
    requires
        is_nearest_selection(cs, p, a),
        is_nearest_selection(cs, p, b),
        0 <= n <= a.len(),
        n <= b.len(),
    ensures
        forall|j: int| 0 <= j < n ==> a[j] == b[j],
    decreases n,
{
    if n > 0 {
        lemma_selections_agree_below(cs, p, a, b, n - 1);
        lemma_selections_agree_at(cs, p, a, b, n - 1);
    }
}

/// A nearest selection is determined by the candidates and the
/// parameters: any two are the same list.
pub proof fn lemma_nearest_selection_unique(
    cs: Seq<SearchCandidate>,
    p: SearchParams,
    a: Seq<usize>,
    b: Seq<usize>,
)
    requires
        is_nearest_selection(cs, p, a),
        is_nearest_selection(cs, p, b),
    ensures
        a == b,
{
    let n = if a.len() < b.len() {
        a.len() as int
    } else {
        b.len() as int
    };
    lemma_selections_agree_below(cs, p, a, b, n);
    lemma_selection_not_shorter(cs, p, a, b);
    lemma_selection_not_shorter(cs, p, b, a);
    assert(a =~= b);
}

proof fn lemma_selection_not_shorter(
    cs: Seq<SearchCandidate>,
    p: SearchParams,
    a: Seq<usize>,
    b: Seq<usize>,
)
    requires
        is_nearest_selection(cs, p, a),
        is_nearest_selection(cs, p, b),
        forall|j: int| 0 <= j < a.len() && j < b.len() ==> a[j] == b[j],
    ensures
        b.len() <= a.len(),
{
    if a.len() < b.len() {
        let y = b[a.len() as int];
        assert(qualifies(cs[y as int], p));
        assert forall|j: int| 0 <= j < a.len() implies a[j] != y by {
            assert(a[j] == b[j]);
            assert(precedes(cs, b[j] as int, b[a.len() as int] as int));
        }
        let i = y as int;
        assert(i as usize == y);
        assert(!a.contains(i as usize));
    }
}

fn qualifies_at(cs: &Vec<SearchCandidate>, i: usize, p: &SearchParams) -> (r: bool)
    requires
        i < cs@.len(),
    ensures
        r == qualifies(cs@[i as int], *p),
{
    cs[i].distance_m <= p.radius_m && includes_category(&cs[i].business.categories, p.category)
}

fn precedes_at(cs: &Vec<SearchCandidate>, i: usize, j: usize) -> (r: bool)
    requires
        i < cs@.len(),
        j < cs@.len(),
    ensures
        r == precedes(cs@, i as int, j as int),
{
    cs[i].distance_m < cs[j].distance_m || (cs[i].distance_m == cs[j].distance_m && i < j)
}

/// The positions of the qualifying candidates, nearest first, at most
/// `p.limit` of them; equally near candidates keep the datastore's order.
pub fn nearest_positions(cs: &Vec<SearchCandidate>, p: &SearchParams) -> (r: Vec<usize>)
    ensures
        is_nearest_selection(cs@, *p, r@),
{
    let n = cs.len();
    let mut picks: Vec<usize> = Vec::new();
    while (picks.len() as u64) < p.limit
        invariant
            n == cs@.len(),
            picks@.len() <= p.limit,
            forall|k: int|
                0 <= k < picks@.len() ==> picks@[k] < n && qualifies(
                    cs@[#[trigger] picks@[k] as int],
                    *p,
                ),
            forall|k: int, l: int|
                0 <= k < l < picks@.len() ==> precedes(
                    cs@,
                    #[trigger] picks@[k] as int,
                    #[trigger] picks@[l] as int,
                ),
            forall|i: int|
                0 <= i < n && qualifies(cs@[i], *p) && !(#[trigger] picks@.contains(i as usize))
                    ==> forall|k: int|
                    0 <= k < picks@.len() ==> precedes(cs@, #[trigger] picks@[k] as int, i),
        decreases p.limit - picks@.len(),
    {
        let mut best: Option<usize> = None;
        let mut i: usize = 0;
        while i < n
            invariant
                n == cs@.len(),
                i <= n,
                forall|k: int| 0 <= k < picks@.len() ==> picks@[k] < n,
                match best {
                    Some(b) => {
                        &&& b < i
                        &&& qualifies(cs@[b as int], *p)
                        &&& (picks@.len() > 0 ==> precedes(cs@, picks@.last() as int, b as int))
                    },
                    None => true,
                },
                forall|j: int|
                    0 <= j < i && #[trigger] qualifies(cs@[j], *p) && (picks@.len() > 0 ==> precedes(
                        cs@,
                        picks@.last() as int,
                        j,
                    )) ==> (best matches Some(b) && !precedes(cs@, j, b as int)),
            decreases n - i,
        {
            let ghost old_best = best;
            if qualifies_at(cs, i, p) {
                let after = if picks.len() == 0 {
                    true
                } else {
                    precedes_at(cs, picks[picks.len() - 1], i)
                };
                if after {
                    let better = match best {
                        Some(b) => precedes_at(cs, i, b),
                        None => true,
                    };
                    if better {
                        best = Some(i);
                    }
                }
            }
            proof {
                assert forall|j: int|
                    0 <= j < i + 1 && #[trigger] qualifies(cs@[j], *p) && (picks@.len() > 0 ==> precedes(
                        cs@,
                        picks@.last() as int,
                        j,
                    )) implies (best matches Some(b) && !precedes(cs@, j, b as int)) by {
                    if j < i {
                        assert(old_best matches Some(ob) && !precedes(cs@, j, ob as int));
                    }
                }
            }
            i = i + 1;
        }
        match best {
            Some(b) => {
                let ghost old_picks = picks@;
                proof {
                    if old_picks.contains(b) {
                        let k = choose|k: int| 0 <= k < old_picks.len() && old_picks[k] == b;
                        if k < old_picks.len() - 1 {
                            assert(precedes(cs@, old_picks[k] as int, old_picks.last() as int));
                        }
                    }
                }
                picks.push(b);
                proof {
                    assert forall|k: int, l: int| 0 <= k < l < picks@.len() implies precedes(
                        cs@,
                        #[trigger] picks@[k] as int,
                        #[trigger] picks@[l] as int,
                    ) by {
                        if l == picks@.len() - 1 {
                            assert(old_picks.contains(old_picks[k]));
                            assert(precedes(cs@, old_picks[k] as int, b as int));
                        } else {
                            assert(picks@[k] == old_picks[k] && picks@[l] == old_picks[l]);
                        }
                    }
                    assert forall|j: int|
                        0 <= j < n && qualifies(cs@[j], *p) && !(#[trigger] picks@.contains(
                            j as usize,
                        )) implies forall|k: int|
                        0 <= k < picks@.len() ==> precedes(cs@, #[trigger] picks@[k] as int, j) by {
                        assert(!old_picks.contains(j as usize)) by {
                            if old_picks.contains(j as usize) {
                                let k = choose|k: int|
                                    0 <= k < old_picks.len() && old_picks[k] == j as usize;
                                assert(picks@[k] == j as usize);
                            }
                        }
                        assert(picks@[picks@.len() - 1] == b);
                        assert(picks@.contains(b));
                        assert(j != b);
                        if old_picks.len() > 0 {
                            assert(old_picks.contains(old_picks.last()));
                        }
                        assert forall|k: int| 0 <= k < picks@.len() implies precedes(
                            cs@,
                            #[trigger] picks@[k] as int,
                            j,
                        ) by {
                            if k < old_picks.len() {
                                assert(picks@[k] == old_picks[k]);
                            } else {
                                if old_picks.len() > 0 {
                                    assert(precedes(cs@, old_picks.last() as int, j));
                                }
                                assert(!precedes(cs@, j, b as int));
                            }
                        }
                    }
                    assert forall|k: int| 0 <= k < picks@.len() implies picks@[k] < n && qualifies(
                        cs@[#[trigger] picks@[k] as int],
                        *p,
                    ) by {
                        if k < old_picks.len() {
                            assert(picks@[k] == old_picks[k]);
                        }
                    }
                }
            },
            None => {
                proof {
                    assert forall|j: int|
                        0 <= j < n && qualifies(cs@[j], *p) && !(#[trigger] picks@.contains(
                            j as usize,
                        )) implies picks@.len() == p.limit by {
                        if picks@.len() > 0 {
                            assert(picks@.contains(picks@.last()));
                        }
                    }
                }
                return picks;
            },
        }
    }
    picks
}

/// Among candidates whose distances the datastore computed, the businesses
/// within the radius that have the category, nearest first, at most
/// `p.limit` of them.
pub fn select_nearest(cs: &Vec<SearchCandidate>, p: &SearchParams) -> (r: Vec<Business>)
    ensures
        exists|picks: Seq<usize>|
            #[trigger] is_nearest_selection(cs@, *p, picks) && r@.len() == picks.len() && forall|
                k: int,
            |
                0 <= k < picks.len() ==> (#[trigger] r@[k])@ == cs@[picks[k] as int].business@,
{
    let picks = nearest_positions(cs, p);
    let mut out: Vec<Business> = Vec::new();
    let mut k: usize = 0;
    while k < picks.len()
        invariant
            is_nearest_selection(cs@, *p, picks@),
            k <= picks@.len(),
            out@.len() == k,
            forall|j: int| 0 <= j < k ==> (#[trigger] out@[j])@ == cs@[picks@[j] as int].business@,
        decreases picks@.len() - k,
    {
        let at = picks[k];
        assert(picks@[k as int] < cs@.len());
        out.push(cs[at].business.duplicate());
        k = k + 1;
    }
    out
}

/// Validates the query, then selects among the candidates the businesses
/// within the radius that have the category, nearest first, up to the limit.
pub fn search_businesses_by_radius_and_category(
    cs: &Vec<SearchCandidate>,
    query: &SearchByRadiusAndCategoryQuery,
) -> (r: Result<Vec<Business>, SearchError>)
    ensures
        match query.validate_spec() {
            Err(e) => r == Err::<Vec<Business>, SearchError>(e),
            Ok(p) => r matches Ok(found) && exists|picks: Seq<usize>|
                #[trigger] is_nearest_selection(cs@, p, picks) && found@.len() == picks.len()
                    && forall|k: int|
                    0 <= k < picks.len() ==> (#[trigger] found@[k])@
                        == cs@[picks[k] as int].business@,
        },
{
    match query.validate() {
        Ok(p) => Ok(select_nearest(cs, &p)),
        Err(e) => Err(e),
    }
}

impl SearchByRadiusAndCategoryQuery {
    /// What `validate` returns.
    pub open spec fn validate_spec(&self) -> Result<SearchParams, SearchError> {
        if self.radius_km <= 0 {
            Err(SearchError::NonPositiveRadius)
        } else if requested_limit(self.limit) <= 0 {
            Err(SearchError::NonPositiveLimit)
        } else {
            Ok(
                SearchParams {
                    latitude_e7: self.latitude_e7,
                    longitude_e7: self.longitude_e7,
                    radius_m: (self.radius_km * 1000) as u64,
                    category: self.category,
                    limit: requested_limit(self.limit) as u64,
                },
            )
        }
    }
}

} // verus!
