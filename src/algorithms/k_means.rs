use vstd::prelude::*;

verus! {

/// What the clustering engine needs from a point: a squared Euclidean
/// distance, a number of coordinates, and a way to move onto the mean of a
/// group of points.
pub trait PointProperties: Sized + Copy {
    /// Squared Euclidean distance between two points.
    spec fn spec_squared_distance(&self, other: &Self) -> int;

    /// Number of coordinates of the point.
    spec fn spec_dimensionality(&self) -> nat;

    /// The point that `self` becomes when recentred on `points`.
    spec fn spec_recentered(&self, points: Seq<Self>) -> Self;

    fn squared_distance(&self, other: &Self) -> (r: u128)
        ensures
            r as int == self.spec_squared_distance(other),
    ;

    fn dimensionality(&self) -> (r: u64)
        ensures
            r as nat == self.spec_dimensionality(),
    ;

    /// Moves `self` onto the mean of `points`; an empty group leaves it where
    /// it is.
    fn calculate_new_center_for_given_points(&mut self, points: &Vec<Self>)
        requires
            forall|i: int|
                0 <= i < points@.len() ==> (#[trigger] points@[i]).spec_dimensionality()
                    == old(self).spec_dimensionality(),
        ensures
            *final(self) == old(self).spec_recentered(points@),
            final(self).spec_dimensionality() == old(self).spec_dimensionality(),
            points@.len() == 0 ==> *final(self) == *old(self),
    ;
}

/// Index of the center nearest to `p`: a scan from the first center on, where
/// a later center replaces the current best only when it is strictly nearer.
pub open spec fn nearest_index<T: PointProperties>(p: T, centers: Seq<T>) -> nat
    decreases centers.len(),
{
    if centers.len() <= 1 {
        0
    } else {
        let best = nearest_index(p, centers.drop_last());
        if p.spec_squared_distance(&centers.last()) < p.spec_squared_distance(
            &centers[best as int],
        ) {
            (centers.len() - 1) as nat
        } else {
            best
        }
    }
}

/// The points of `data`, in order, whose nearest center has index `k`.
pub open spec fn points_nearest_to<T: PointProperties>(data: Seq<T>, centers: Seq<T>, k: int) -> Seq<T>
    decreases data.len(),
{
    if data.len() == 0 {
        Seq::empty()
    } else {
        let rest = points_nearest_to(data.drop_last(), centers, k);
        if nearest_index(data.last(), centers) == k {
            rest.push(data.last())
        } else {
            rest
        }
    }
}

/// Each center paired with the points assigned to it.
pub open spec fn assignment<T: PointProperties>(data: Seq<T>, centers: Seq<T>) -> Seq<(T, Seq<T>)> {
    Seq::new(centers.len(), |k: int| (centers[k], points_nearest_to(data, centers, k)))
}

/// The centers after one round: each one recentred on the points assigned to it.
pub open spec fn recentered_centers<T: PointProperties>(data: Seq<T>, centers: Seq<T>) -> Seq<T> {
    Seq::new(
        centers.len(),
        |k: int| centers[k].spec_recentered(points_nearest_to(data, centers, k)),
    )
}

/// The centers after `n` rounds.
pub open spec fn centers_after<T: PointProperties>(data: Seq<T>, centers: Seq<T>, n: nat) -> Seq<T>
    decreases n,
{
    if n == 0 {
        centers
    } else {
        recentered_centers(data, centers_after(data, centers, (n - 1) as nat))
    }
}

/// What one round starting from `centers` records: each recentred center with
/// the points that were assigned to it in that round.
pub open spec fn round_result<T: PointProperties>(data: Seq<T>, centers: Seq<T>) -> Seq<(T, Seq<T>)> {
    Seq::new(
        centers.len(),
        |k: int| (recentered_centers(data, centers)[k], points_nearest_to(data, centers, k)),
    )
}

/// Every point of `data` and `centers` has as many coordinates as the first
/// point of `data`.
pub open spec fn dims_agree<T: PointProperties>(data: Seq<T>, centers: Seq<T>) -> bool {
    &&& forall|i: int|
        0 <= i < data.len() ==> (#[trigger] data[i]).spec_dimensionality()
            == data[0].spec_dimensionality()
    &&& forall|i: int|
        0 <= i < centers.len() ==> (#[trigger] centers[i]).spec_dimensionality()
            == data[0].spec_dimensionality()
}

/// The inputs that the engine accepts.
pub open spec fn valid_input<T: PointProperties>(data: Seq<T>, centers: Seq<T>) -> bool {
    &&& data.len() > 0
    &&& centers.len() > 0
    &&& centers.len() <= data.len()
    &&& dims_agree(data, centers)
}

/// `s` is the rejection that the first failing check gives for these inputs.
pub open spec fn is_rejection_for<T: PointProperties>(
    s: DataState<T>,
    data: Seq<T>,
    centers: Seq<T>,
) -> bool {
    if data.len() == 0 {
        s is NoPoints
    } else if centers.len() == 0 {
        s is NoCenters
    } else if data.len() < centers.len() {
        s is MoreCentersThanPoints
    } else if !dims_agree(data, centers) {
        s is NotEqualDimensions
    } else {
        false
    }
}

pub open spec fn pairs_view<T>(v: Seq<(T, Vec<T>)>) -> Seq<(T, Seq<T>)> {
    v.map_values(|e: (T, Vec<T>)| (e.0, e.1@))
}

/// The outcome of building an engine: the engine, or the first check that
/// the inputs failed.
pub enum DataState<T: PointProperties> {
    Created(KMeans<T>),
    NoPoints,
    NoCenters,
    MoreCentersThanPoints,
    NotEqualDimensions,
}

/// The clustering result: not computed yet, or each center with its points.
pub enum KMResult<T: PointProperties> {
    NotCalculated,
    Calculated(Vec<(T, Vec<T>)>),
}

impl<T: PointProperties> KMResult<T> {
    pub open spec fn view(&self) -> Option<Seq<(T, Seq<T>)>> {
        match self {
            KMResult::NotCalculated => None,
            KMResult::Calculated(v) => Some(pairs_view(v@)),
        }
    }
}

/// K-means clustering by a fixed number of rounds of Lloyd's algorithm.
pub struct KMeans<T: PointProperties> {
    data_points: Vec<T>,
    region_centers: Vec<T>,
    algorithm_result: KMResult<T>,
}

fn copy_points<T: PointProperties>(v: &Vec<T>) -> (r: Vec<T>)
    ensures
        r@ == v@,
{
    let mut r: Vec<T> = Vec::new();
    let mut i: usize = 0;
    while i < v.len()
        invariant
            i <= v@.len(),
            r@ == v@.take(i as int),
        decreases v@.len() - i,
    {
        r.push(v[i]);
        i = i + 1;
        assert(r@ =~= v@.take(i as int));
    }
    assert(v@.take(i as int) =~= v@);
    r
}

fn copy_pairs<T: PointProperties>(v: &Vec<(T, Vec<T>)>) -> (r: Vec<(T, Vec<T>)>)
    ensures
        pairs_view(r@) == pairs_view(v@),
{
    let mut r: Vec<(T, Vec<T>)> = Vec::new();
    let mut i: usize = 0;
    while i < v.len()
        invariant
            i <= v@.len(),
            r@.len() == i,
            pairs_view(r@) == pairs_view(v@.take(i as int)),
        decreases v@.len() - i,
    {
        let ghost old_r = r@;
        let e = &v[i];
        let pts = copy_points(&e.1);
        r.push((e.0, pts));
        assert(pairs_view(r@) =~= pairs_view(v@.take(i + 1))) by {
            assert forall|m: int| 0 <= m < i + 1 implies pairs_view(r@)[m] == pairs_view(
                v@.take(i + 1),
            )[m] by {
                if m < i {
                    assert(r@[m] == old_r[m]);
                    assert(pairs_view(old_r)[m] == pairs_view(v@.take(i as int))[m]);
                }
            }
        }
        i = i + 1;
    }
    assert(v@.take(i as int) =~= v@);
    r
}

/// Collects, in order, the points of `data` whose assigned index is `k`.
fn collect_bucket<T: PointProperties>(
    data: &Vec<T>,
    assigned: &Vec<usize>,
    k: usize,
    Ghost(centers): Ghost<Seq<T>>,
    Ghost(dim): Ghost<nat>,
) -> (r: Vec<T>)
    requires
        assigned@.len() == data@.len(),
        forall|j: int|
            0 <= j < data@.len() ==> assigned@[j] == nearest_index(#[trigger] data@[j], centers),
        forall|j: int| 0 <= j < data@.len() ==> (#[trigger] data@[j]).spec_dimensionality() == dim,
    ensures
        r@ == points_nearest_to(data@, centers, k as int),
        forall|i: int| 0 <= i < r@.len() ==> (#[trigger] r@[i]).spec_dimensionality() == dim,
{
    let mut r: Vec<T> = Vec::new();
    let mut i: usize = 0;
    while i < data.len()
        invariant
            i <= data@.len(),
            assigned@.len() == data@.len(),
            forall|j: int|
                0 <= j < data@.len() ==> assigned@[j] == nearest_index(
                    #[trigger] data@[j],
                    centers,
                ),
            forall|j: int|
                0 <= j < data@.len() ==> (#[trigger] data@[j]).spec_dimensionality() == dim,
            r@ == points_nearest_to(data@.take(i as int), centers, k as int),
            forall|m: int| 0 <= m < r@.len() ==> (#[trigger] r@[m]).spec_dimensionality() == dim,
        decreases data@.len() - i,
    {
        assert(data@.take(i + 1).drop_last() =~= data@.take(i as int));
        assert(data@.take(i + 1).last() == data@[i as int]);
        if assigned[i] == k {
            r.push(data[i]);
        }
        i = i + 1;
    }
    assert(data@.take(i as int) =~= data@);
    r
}

proof fn lemma_nearest_in_range<T: PointProperties>(p: T, centers: Seq<T>)
    requires
        centers.len() > 0,
    ensures
        nearest_index(p, centers) < centers.len(),
    decreases centers.len(),
{
    if centers.len() > 1 {
        lemma_nearest_in_range(p, centers.drop_last());
    }
}

/// The nearest index lies among the centers, no center is nearer, and every
/// center before it is strictly farther: of equally near centers the one with
/// the lowest index is chosen.
pub proof fn lemma_nearest_is_first_minimum<T: PointProperties>(p: T, centers: Seq<T>)
    requires
        centers.len() > 0,
    ensures
        nearest_index(p, centers) < centers.len(),
        forall|j: int|
            0 <= j < centers.len() ==> #[trigger] p.spec_squared_distance(&centers[j])
                >= p.spec_squared_distance(&centers[nearest_index(p, centers) as int]),
        forall|j: int|
            0 <= j < nearest_index(p, centers) ==> #[trigger] p.spec_squared_distance(&centers[j])
                > p.spec_squared_distance(&centers[nearest_index(p, centers) as int]),
    decreases centers.len(),
{
    if centers.len() > 1 {
        let init = centers.drop_last();
        lemma_nearest_is_first_minimum(p, init);
        assert(forall|j: int| 0 <= j < init.len() ==> init[j] == centers[j]);
    }
}

/// A point exactly as near to the first of two centers as to the second goes
/// to the first.
pub proof fn lemma_tie_goes_to_first<T: PointProperties>(p: T, centers: Seq<T>)
    requires
        centers.len() == 2,
        p.spec_squared_distance(&centers[0]) == p.spec_squared_distance(&centers[1]),
    ensures
        nearest_index(p, centers) == 0,
{
    assert(centers.drop_last().len() == 1);
    assert(nearest_index(p, centers.drop_last()) == 0);
    assert(centers.last() == centers[1]);
}

/// With a single center, every data point is assigned to it, in order.
pub proof fn lemma_single_center_takes_all<T: PointProperties>(data: Seq<T>, centers: Seq<T>)
    requires
        centers.len() == 1,
    ensures
        points_nearest_to(data, centers, 0) == data,
    decreases data.len(),
{
    if data.len() > 0 {
        lemma_single_center_takes_all(data.drop_last(), centers);
        assert(data.drop_last().push(data.last()) =~= data);
    }
}

impl<T: PointProperties> KMeans<T> {
    pub closed spec fn data_view(&self) -> Seq<T> {
        self.data_points@
    }

    pub closed spec fn centers_view(&self) -> Seq<T> {
        self.region_centers@
    }

    pub closed spec fn result_view(&self) -> Option<Seq<(T, Seq<T>)>> {
        self.algorithm_result@
    }

    pub open spec fn well_formed(&self) -> bool {
        valid_input(self.data_view(), self.centers_view())
    }

    fn check_if_correct_input_data(data: &Vec<T>, start_centers: &Vec<T>) -> (r: Option<
        DataState<T>,
    >)
        ensures
            r is None <==> valid_input(data@, start_centers@),
            r matches Some(e) ==> is_rejection_for(e, data@, start_centers@),
    {
        if data.len() == 0 {
            return Some(DataState::NoPoints);
        }
        if start_centers.len() == 0 {
            return Some(DataState::NoCenters);
        }
        if data.len() < start_centers.len() {
            return Some(DataState::MoreCentersThanPoints);
        }
        let data_dimension = data[0].dimensionality();
        let mut i: usize = 0;
        while i < data.len()
            invariant
                i <= data@.len(),
                data@.len() > 0,
                start_centers@.len() > 0,
                start_centers@.len() <= data@.len(),
                data_dimension == data@[0].spec_dimensionality(),
                forall|j: int|
                    0 <= j < i ==> (#[trigger] data@[j]).spec_dimensionality()
                        == data@[0].spec_dimensionality(),
            decreases data@.len() - i,
        {
            if data[i].dimensionality() != data_dimension {
                assert(data@[i as int].spec_dimensionality() != data@[0].spec_dimensionality());
                return Some(DataState::NotEqualDimensions);
            }
            i = i + 1;
        }
        let mut i: usize = 0;
        while i < start_centers.len()
            invariant
                i <= start_centers@.len(),
                data@.len() > 0,
                start_centers@.len() > 0,
                start_centers@.len() <= data@.len(),
                data_dimension == data@[0].spec_dimensionality(),
                forall|j: int|
                    0 <= j < data@.len() ==> (#[trigger] data@[j]).spec_dimensionality()
                        == data@[0].spec_dimensionality(),
                forall|j: int|
                    0 <= j < i ==> (#[trigger] start_centers@[j]).spec_dimensionality()
                        == data@[0].spec_dimensionality(),
            decreases start_centers@.len() - i,
        {
            if start_centers[i].dimensionality() != data_dimension {
                assert(start_centers@[i as int].spec_dimensionality()
                    != data@[0].spec_dimensionality());
                return Some(DataState::NotEqualDimensions);
            }
            i = i + 1;
        }
        None
    }

    /// Builds an engine over `data` with the initial `start_centers`, or
    /// reports the first check that the inputs fail.
    pub fn new(data: Vec<T>, start_centers: Vec<T>) -> (r: DataState<T>)
        ensures
            !valid_input(data@, start_centers@) ==> is_rejection_for(r, data@, start_centers@),
            valid_input(data@, start_centers@) ==> (match r {
                DataState::Created(km) => km.data_view() == data@ && km.centers_view()
                    == start_centers@ && km.result_view() is None,
                _ => false,
            }),
    {
        match KMeans::check_if_correct_input_data(&data, &start_centers) {
            Some(err) => err,
            None => DataState::Created(
                KMeans {
                    data_points: data,
                    region_centers: start_centers,
                    algorithm_result: KMResult::NotCalculated,
                },
            ),
        }
    }

    /// Replaces the data points; the result is discarded. On rejected input
    /// the engine is left as it was.
    pub fn change_data_points(&mut self, data: Vec<T>) -> (r: Option<DataState<T>>)
        ensures
            r is None <==> valid_input(data@, old(self).centers_view()),
            r matches Some(e) ==> is_rejection_for(e, data@, old(self).centers_view())
                && *final(self) == *old(self),
            r is None ==> final(self).data_view() == data@ && final(self).centers_view()
                == old(self).centers_view() && final(self).result_view() is None,
    {
        match KMeans::check_if_correct_input_data(&data, &self.region_centers) {
            Some(err) => Some(err),
            None => {
                self.data_points = data;
                self.algorithm_result = KMResult::NotCalculated;
                None
            },
        }
    }

    /// Replaces the centers; the result is discarded. On rejected input the
    /// engine is left as it was.
    pub fn change_center_points(&mut self, centers: Vec<T>) -> (r: Option<DataState<T>>)
        ensures
            r is None <==> valid_input(old(self).data_view(), centers@),
            r matches Some(e) ==> is_rejection_for(e, old(self).data_view(), centers@)
                && *final(self) == *old(self),
            r is None ==> final(self).data_view() == old(self).data_view()
                && final(self).centers_view() == centers@ && final(self).result_view() is None,
    {
        match KMeans::check_if_correct_input_data(&self.data_points, &centers) {
            Some(err) => Some(err),
            None => {
                self.region_centers = centers;
                self.algorithm_result = KMResult::NotCalculated;
                None
            },
        }
    }

    /// Replaces both the data points and the centers; the result is
    /// discarded. On rejected input the engine is left as it was.
    pub fn change_data_and_center_points(&mut self, data: Vec<T>, centers: Vec<T>) -> (r: Option<
        DataState<T>,
    >)
        ensures
            r is None <==> valid_input(data@, centers@),
            r matches Some(e) ==> is_rejection_for(e, data@, centers@) && *final(self)
                == *old(self),
            r is None ==> final(self).data_view() == data@ && final(self).centers_view()
                == centers@ && final(self).result_view() is None,
    {
        match KMeans::check_if_correct_input_data(&data, &centers) {
            Some(err) => Some(err),
            None => {
                self.data_points = data;
                self.region_centers = centers;
                self.algorithm_result = KMResult::NotCalculated;
                None
            },
        }
    }

    fn find_nearest_center_index(&self, p: &T) -> (r: Result<usize, String>)
        ensures
            r is Err <==> self.centers_view().len() == 0,
            r matches Ok(i) ==> i == nearest_index(*p, self.centers_view()),
    {
        let n = self.region_centers.len();
        if n == 0 {
            return Err("No enough regions to calculate".to_string());
        }
        if n == 1 {
            return Ok(0);
        }
        let ghost centers = self.region_centers@;
        let mut nearest_center_index: usize = 0;
        let mut nearest_center_distance = p.squared_distance(&self.region_centers[0]);
        let mut i: usize = 1;
        assert(centers.take(1).len() == 1);
        while i < n
            invariant
                n == centers.len(),
                centers == self.region_centers@,
                1 <= i <= n,
                nearest_center_index < i,
                nearest_center_index == nearest_index(*p, centers.take(i as int)),
                nearest_center_distance == p.spec_squared_distance(
                    &centers[nearest_center_index as int],
                ),
            decreases n - i,
        {
            let d = p.squared_distance(&self.region_centers[i]);
            assert(centers.take(i + 1).drop_last() =~= centers.take(i as int));
            assert(centers.take(i + 1)[nearest_center_index as int]
                == centers[nearest_center_index as int]);
            if d < nearest_center_distance {
                nearest_center_distance = d;
                nearest_center_index = i;
            }
            i = i + 1;
        }
        assert(centers.take(n as int) =~= centers);
        Ok(nearest_center_index)
    }

    /// The index of the nearest center of each data point, in order.
    fn assign_points(&self) -> (r: Result<Vec<usize>, String>)
        ensures
            r is Err <==> self.centers_view().len() == 0,
            r matches Ok(a) ==> a@.len() == self.data_view().len() && forall|j: int|
                0 <= j < a@.len() ==> a@[j] == nearest_index(
                    #[trigger] self.data_view()[j],
                    self.centers_view(),
                ),
    {
        let mut a: Vec<usize> = Vec::new();
        let mut i: usize = 0;
        if self.region_centers.len() == 0 {
            return Err("No enough regions to calculate".to_string());
        }
        while i < self.data_points.len()
            invariant
                i <= self.data_view().len(),
                self.centers_view().len() > 0,
                a@.len() == i,
                forall|j: int|
                    0 <= j < i ==> a@[j] == nearest_index(
                        #[trigger] self.data_view()[j],
                        self.centers_view(),
                    ),
            decreases self.data_view().len() - i,
        {
            let p = self.data_points[i];
            match self.find_nearest_center_index(&p) {
                Ok(index) => a.push(index),
                Err(message) => return Err(message),
            }
            i = i + 1;
        }
        Ok(a)
    }

    /// Runs one round: assigns every data point to its nearest center,
    /// recentres each center on its points, and records the pairs.
    fn run_round(&mut self)
        requires
            old(self).well_formed(),
        ensures
            final(self).well_formed(),
            final(self).data_view() == old(self).data_view(),
            final(self).centers_view() == recentered_centers(
                old(self).data_view(),
                old(self).centers_view(),
            ),
            final(self).result_view() == Some(
                round_result(old(self).data_view(), old(self).centers_view()),
            ),
    {
        let ghost data = self.data_points@;
        let ghost centers = self.region_centers@;
        let ghost dim = data[0].spec_dimensionality();
        let assigned = match self.assign_points() {
            Ok(a) => a,
            Err(_) => {
                return;
            },
        };
        let mut new_centers: Vec<T> = Vec::new();
        let mut result: Vec<(T, Vec<T>)> = Vec::new();
        let mut k: usize = 0;
        while k < self.region_centers.len()
            invariant
                self.data_points@ == data,
                self.region_centers@ == centers,
                valid_input(data, centers),
                dim == data[0].spec_dimensionality(),
                assigned@.len() == data.len(),
                forall|j: int|
                    0 <= j < data.len() ==> assigned@[j] == nearest_index(
                        #[trigger] data[j],
                        centers,
                    ),
                k <= centers.len(),
                result@.len() == k,
                new_centers@ == recentered_centers(data, centers).take(k as int),
                pairs_view(result@) == round_result(data, centers).take(k as int),
                forall|m: int|
                    0 <= m < k ==> (#[trigger] new_centers@[m]).spec_dimensionality() == dim,
            decreases centers.len() - k,
        {
            let bucket = collect_bucket(
                &self.data_points,
                &assigned,
                k,
                Ghost(centers),
                Ghost(dim),
            );
            let mut c = self.region_centers[k];
            c.calculate_new_center_for_given_points(&bucket);
            let ghost old_result = result@;
            new_centers.push(c);
            result.push((c, bucket));
            assert(new_centers@ =~= recentered_centers(data, centers).take(k + 1));
            assert(pairs_view(result@) =~= round_result(data, centers).take(k + 1)) by {
                assert forall|m: int| 0 <= m < k + 1 implies pairs_view(result@)[m]
                    == round_result(data, centers).take(k + 1)[m] by {
                    if m < k {
                        assert(result@[m] == old_result[m]);
                        assert(pairs_view(old_result)[m] == round_result(data, centers).take(
                            k as int,
                        )[m]);
                    }
                }
            }
            k = k + 1;
        }
        assert(new_centers@ =~= recentered_centers(data, centers));
        assert(pairs_view(result@) =~= round_result(data, centers));
        self.region_centers = new_centers;
        self.algorithm_result = KMResult::Calculated(result);
    }

    /// Runs `iterations` rounds of Lloyd's algorithm, with no test for
    /// convergence. The result afterwards is that of the last round; with no
    /// round the engine is unchanged.
    pub fn find_possible_centers(&mut self, iterations: u64) -> (r: Option<String>)
        requires
            old(self).well_formed(),
        ensures
            r is None,
            final(self).well_formed(),
            final(self).data_view() == old(self).data_view(),
            final(self).centers_view() == centers_after(
                old(self).data_view(),
                old(self).centers_view(),
                iterations as nat,
            ),
            iterations == 0 ==> *final(self) == *old(self),
            iterations > 0 ==> final(self).result_view() == Some(
                round_result(
                    old(self).data_view(),
                    centers_after(
                        old(self).data_view(),
                        old(self).centers_view(),
                        (iterations - 1) as nat,
                    ),
                ),
            ),
    {
        let ghost start = *self;
        let mut it: u64 = 0;
        while it < iterations
            invariant
                start.well_formed(),
                it <= iterations,
                self.well_formed(),
                self.data_view() == start.data_view(),
                self.centers_view() == centers_after(
                    start.data_view(),
                    start.centers_view(),
                    it as nat,
                ),
                it == 0 ==> *self == start,
                it > 0 ==> self.result_view() == Some(
                    round_result(
                        start.data_view(),
                        centers_after(start.data_view(), start.centers_view(), (it - 1) as nat),
                    ),
                ),
            decreases iterations - it,
        {
            self.run_round();
            it = it + 1;
        }
        None
    }

    /// Each current center with the data points nearest to it, without
    /// running a round.
    pub fn assign_all_points_to_nearest_current_center(&self) -> (r: Result<
        Vec<(T, Vec<T>)>,
        String,
    >)
        requires
            self.well_formed(),
        ensures
            r matches Ok(v) && pairs_view(v@) == assignment(self.data_view(), self.centers_view()),
    {
        let ghost data = self.data_points@;
        let ghost centers = self.region_centers@;
        let ghost dim = data[0].spec_dimensionality();
        let assigned = match self.assign_points() {
            Ok(a) => a,
            Err(message) => {
                return Err(message);
            },
        };
        let mut result: Vec<(T, Vec<T>)> = Vec::new();
        let mut k: usize = 0;
        while k < self.region_centers.len()
            invariant
                self.data_points@ == data,
                self.region_centers@ == centers,
                valid_input(data, centers),
                dim == data[0].spec_dimensionality(),
                assigned@.len() == data.len(),
                forall|j: int|
                    0 <= j < data.len() ==> assigned@[j] == nearest_index(
                        #[trigger] data[j],
                        centers,
                    ),
                k <= centers.len(),
                result@.len() == k,
                pairs_view(result@) == assignment(data, centers).take(k as int),
            decreases centers.len() - k,
        {
            let bucket = collect_bucket(
                &self.data_points,
                &assigned,
                k,
                Ghost(centers),
                Ghost(dim),
            );
            let ghost old_result = result@;
            result.push((self.region_centers[k], bucket));
            assert(pairs_view(result@) =~= assignment(data, centers).take(k + 1)) by {
                assert forall|m: int| 0 <= m < k + 1 implies pairs_view(result@)[m]
                    == assignment(data, centers).take(k + 1)[m] by {
                    if m < k {
                        assert(result@[m] == old_result[m]);
                        assert(pairs_view(old_result)[m] == assignment(data, centers).take(
                            k as int,
                        )[m]);
                    }
                }
            }
            k = k + 1;
        }
        assert(pairs_view(result@) =~= assignment(data, centers));
        Ok(result)
    }

    /// The result of the last round, or `NotCalculated` when no round has run
    /// since the engine was built or its inputs were replaced.
    pub fn show_centers_with_data(&self) -> (r: KMResult<T>)
        ensures
            r@ == self.result_view(),
    {
        match &self.algorithm_result {
            KMResult::NotCalculated => KMResult::NotCalculated,
            KMResult::Calculated(v) => KMResult::Calculated(copy_pairs(v)),
        }
    }
}

} // verus!
