use vstd::prelude::*;

verus! {

use crate::color::Color;
use crate::hittable::{spec_list_hit, HitRecord, HitResult, HittableList, SceneObject};
use crate::interval::Interval;
use crate::material::{spec_scatter_rel, Material, ScatterResult};
use crate::progress_tracker::{spec_eta_nanos, ProgressTracker};
use crate::ray::Ray;
use crate::util::RandomSource;
use crate::vec::{
    random_in_unit_disk, seq_add, seq_div_scalar, seq_mul, seq_mul_scalar, seq_neg, seq_sub,
    spec_dot_prefix, Scalar, Vector,
};

/// The pixel grid size of a render.
#[derive(Clone, Copy, Debug, PartialEq, Eq, Structural)]
pub struct Dimension {
    pub width: u32,
    pub height: u32,
}

/// One line of progress for the terminal: the counts and times it is
/// formatted from.  Times are whole nanoseconds.
#[derive(Clone, Copy, Debug, PartialEq, Eq, Structural)]
pub struct ProgressReport {
    pub current: isize,
    pub max: isize,
    pub elapsed_nanos: u64,
    pub eta_nanos: u64,
    pub finished: bool,
}

/// How many pixels pass between two progress lines.
pub const MINIMUM_UPDATE_INTERVAL: usize = 512;

/// A progress tracker driven by (row, column) steps of a render, reporting
/// only every `MINIMUM_UPDATE_INTERVAL` pixels and at the end.
pub struct ProgressTrackerWrapper {
    tracker: ProgressTracker,
    min_update_interval: usize,
    width: usize,
}

impl ProgressTrackerWrapper {
    /// The tracker behind the wrapper.
    pub closed spec fn spec_tracker(self) -> ProgressTracker {
        self.tracker
    }

    /// Pixels per row.
    pub closed spec fn spec_width(self) -> int {
        self.width as int
    }

    /// The reporting interval.
    pub closed spec fn spec_interval(self) -> int {
        self.min_update_interval as int
    }

    pub open spec fn wf(self) -> bool {
        &&& self.spec_tracker().wf()
        &&& self.spec_tracker().spec_min() == 0
        &&& self.spec_interval() > 0
    }

    pub fn new(width: u32, steps: usize) -> (r: Self)
        requires
            steps * width <= isize::MAX,
        ensures
            r.wf(),
            r.spec_width() == width,
            r.spec_interval() == MINIMUM_UPDATE_INTERVAL,
            r.spec_tracker().spec_max() == steps * width,
            r.spec_tracker().spec_current() == 0,
    {
        let max_count = steps * (width as usize);
        Self {
            tracker: ProgressTracker::new(0, max_count as isize),
            min_update_interval: MINIMUM_UPDATE_INTERVAL,
            width: width as usize,
        }
    }

    /// Advance to the pixel `width_step` of row-step `count`; a report comes
    /// back at every reporting interval and when the last pixel is reached,
    /// and only then is the tracker advanced.
    pub fn update(&mut self, count: usize, width_step: usize) -> (r: Option<ProgressReport>)
        requires
            old(self).wf(),
            count * old(self).spec_width() + width_step <= old(self).spec_tracker().spec_max(),
        ensures
            final(self).wf(),
            final(self).spec_width() == old(self).spec_width(),
            final(self).spec_interval() == old(self).spec_interval(),
            ({
                let new_count = count * old(self).spec_width() + width_step;
                let due = new_count % old(self).spec_interval() == 0 || new_count == old(
                    self,
                ).spec_tracker().spec_max();
                &&& r is Some <==> due
                &&& (r matches Some(report) ==> {
                    &&& report.current == new_count
                    &&& report.max == old(self).spec_tracker().spec_max()
                    &&& report.finished == (new_count == old(self).spec_tracker().spec_max())
                    &&& final(self).spec_tracker().spec_current() == new_count
                    &&& report.eta_nanos == spec_eta_nanos(
                        final(self).spec_tracker().spec_records().spec_average(),
                        final(self).spec_tracker().spec_max() - new_count,
                    )
                })
                &&& (r is None ==> final(self).spec_tracker() == old(self).spec_tracker())
            }),
    {
        let new_count = count * self.width + width_step;
        let should_update = new_count % self.min_update_interval == 0;
        let reached_max = new_count == self.tracker.max() as usize;
        if should_update || reached_max {
            self.tracker.update(new_count as isize);
            let report = ProgressReport {
                current: new_count as isize,
                max: self.tracker.max(),
                elapsed_nanos: self.tracker.get_elapsed(),
                eta_nanos: self.tracker.get_eta(),
                finished: reached_max,
            };
            Some(report)
        } else {
            None
        }
    }
}

/// A rendered picture: its pixels in row-major order and its size.
pub struct Image<T: Scalar> {
    pub pixels: Vec<Color<T>>,
    pub dimension: Dimension,
}

/// What a render is asked for: image and sampling sizes, the camera
/// placement, and its optics.
#[derive(Debug)]
pub struct TracerParams<T: Scalar> {
    pub aspect_ratio: T,
    pub height: u32,
    pub sampling_rate: u32,
    pub max_depth: u32,
    pub vfov: T,
    pub defocus_angle: T,
    pub focus_distance: T,
    pub look_from: Vector<T, 3>,
    pub look_at: Vector<T, 3>,
}

impl<T: Scalar> Default for TracerParams<T> {
    /// The stock parameters: a 16:9 image of height 480, 20 samples, depth
    /// 10, a 20 degree field of view, a 0.6 degree defocus cone focused at
    /// 10, looking from (13, 2, 3) at the origin.
    fn default() -> (r: Self)
        ensures
            r.aspect_ratio == T::sp_num(16, 9),
            r.height == 480u32,
            r.sampling_rate == 20u32,
            r.max_depth == 10u32,
            r.vfov == T::sp_num(20, 1),
            r.defocus_angle == T::sp_num(6, 10),
            r.focus_distance == T::sp_num(10, 1),
            r.look_from.data@ =~= seq![T::sp_num(13, 1), T::sp_num(2, 1), T::sp_num(3, 1)],
            r.look_at.data@ =~= seq![T::sp_zero(), T::sp_zero(), T::sp_zero()],
    {
        Self {
            aspect_ratio: T::el_num(16, 9),
            height: 480,
            sampling_rate: 20,
            max_depth: 10,
            vfov: T::el_num(20, 1),
            defocus_angle: T::el_num(6, 10),
            focus_distance: T::el_num(10, 1),
            look_from: Vector::new([T::el_num(13, 1), T::el_num(2, 1), T::el_num(3, 1)]),
            look_at: Vector::new([T::el_zero(), T::el_zero(), T::el_zero()]),
        }
    }
}

/// The length of a coordinate triple.
pub open spec fn seq_len3<T: Scalar>(s: Seq<T>) -> T {
    spec_dot_prefix(s, s, 3).sp_sqrt()
}

/// A coordinate triple scaled to unit length.
pub open spec fn unit3<T: Scalar>(s: Seq<T>) -> Seq<T> {
    seq_div_scalar(s, seq_len3(s))
}

/// The cross product of two coordinate triples.
pub open spec fn cross3<T: Scalar>(a: Seq<T>, b: Seq<T>) -> Seq<T> {
    seq![
        a[1].sp_mul(b[2]).sp_sub(a[2].sp_mul(b[1])),
        a[2].sp_mul(b[0]).sp_sub(a[0].sp_mul(b[2])),
        a[0].sp_mul(b[1]).sp_sub(a[1].sp_mul(b[0])),
    ]
}

/// The world's up direction.
pub open spec fn spec_world_up<T: Scalar>() -> Seq<T> {
    seq![T::sp_zero(), T::sp_one(), T::sp_zero()]
}

/// The camera looks along the negation of this: the unit vector from the
/// target towards the eye.
pub open spec fn spec_view_dir<T: Scalar>(p: TracerParams<T>) -> Seq<T> {
    unit3(seq_sub(p.look_from.data@, p.look_at.data@))
}

/// The camera's right-hand direction: up crossed with the view direction,
/// normalized.
pub open spec fn spec_view_right<T: Scalar>(p: TracerParams<T>) -> Seq<T> {
    unit3(cross3(spec_world_up::<T>(), spec_view_dir(p)))
}

/// The camera's own up direction.
pub open spec fn spec_view_up<T: Scalar>(p: TracerParams<T>) -> Seq<T> {
    cross3(spec_view_dir(p), spec_view_right(p))
}

/// The pixel width: the height scaled by the requested aspect ratio,
/// rounded to the nearest whole number (half a pixel is added before the
/// truncating conversion).
pub open spec fn spec_width<T: Scalar>(p: TracerParams<T>) -> u32 {
    T::sp_num(p.height, 1).sp_mul(p.aspect_ratio).sp_add(T::sp_num(1, 2)).sp_trunc_u32()
}

/// The viewport height in world units: twice the tangent of half the
/// vertical field of view, at focus distance.
pub open spec fn spec_view_height<T: Scalar>(p: TracerParams<T>) -> T {
    T::sp_num(2, 1).sp_mul(p.vfov.sp_to_radians().sp_div(T::sp_num(2, 1)).sp_tan()).sp_mul(
        p.focus_distance,
    )
}

/// The viewport width in world units: its height scaled by the aspect ratio
/// the integer image size actually has.
pub open spec fn spec_view_width<T: Scalar>(p: TracerParams<T>) -> T {
    spec_view_height(p).sp_mul(
        T::sp_num(spec_width(p), 1).sp_div(T::sp_num(p.height, 1)),
    )
}

/// The viewport's horizontal edge.
pub open spec fn spec_u_vector<T: Scalar>(p: TracerParams<T>) -> Seq<T> {
    seq_mul_scalar(spec_view_right(p), spec_view_width(p))
}

/// The viewport's vertical edge, pointing down so rows grow downward.
pub open spec fn spec_v_vector<T: Scalar>(p: TracerParams<T>) -> Seq<T> {
    seq_mul_scalar(seq_neg(spec_view_up(p)), spec_view_height(p))
}

/// One pixel's step along the horizontal edge.
pub open spec fn spec_du_vector<T: Scalar>(p: TracerParams<T>) -> Seq<T> {
    seq_div_scalar(spec_u_vector(p), T::sp_num(spec_width(p), 1))
}

/// One pixel's step along the vertical edge.
pub open spec fn spec_dv_vector<T: Scalar>(p: TracerParams<T>) -> Seq<T> {
    seq_div_scalar(spec_v_vector(p), T::sp_num(p.height, 1))
}

/// The upper-left corner of the viewport: the eye pushed to the focal
/// plane, backed up by half of each edge.
pub open spec fn spec_upper_left<T: Scalar>(p: TracerParams<T>) -> Seq<T> {
    seq_sub(
        seq_sub(
            seq_sub(
                p.look_from.data@,
                seq_mul_scalar(spec_view_dir(p), p.focus_distance),
            ),
            seq_div_scalar(spec_u_vector(p), T::sp_num(2, 1)),
        ),
        seq_div_scalar(spec_v_vector(p), T::sp_num(2, 1)),
    )
}

/// The center of pixel (0, 0): the corner plus half a step each way.
pub open spec fn spec_pixel_origin<T: Scalar>(p: TracerParams<T>) -> Seq<T> {
    seq_add(
        spec_upper_left(p),
        seq_mul_scalar(seq_add(spec_du_vector(p), spec_dv_vector(p)), T::sp_num(1, 2)),
    )
}

/// The defocus disk radius: the focus distance scaled by the tangent of
/// half the defocus angle.
pub open spec fn spec_defocus_radius<T: Scalar>(p: TracerParams<T>) -> T {
    p.focus_distance.sp_mul(p.defocus_angle.sp_div(T::sp_num(2, 1)).sp_to_radians().sp_tan())
}

/// The sky seen along a ray that leaves the scene: a vertical blend from
/// white to a light blue.
pub open spec fn spec_sky_at<T: Scalar>(ray: Ray<T, 3>, i: int) -> T {
    let d = unit3(ray.direction.data@);
    let a = T::sp_num(1, 2).sp_mul(d[1].sp_add(T::sp_one()));
    let white = T::sp_one();
    let blue = seq![T::sp_num(1, 2), T::sp_num(7, 10), T::sp_num(1, 1)];
    white.sp_mul(T::sp_one().sp_sub(a)).sp_add(blue[i].sp_mul(a))
}

/// The range of ray parameters the integrator accepts: from the
/// shadow-acne bound of one thousandth outward without limit.
pub open spec fn spec_shadow_range<T: Scalar>() -> Interval<T> {
    Interval { min: T::sp_num(1, 1000), max: T::sp_inf() }
}

/// A color with every channel zero.
pub open spec fn spec_is_black<T: Scalar>(c: Color<T>) -> bool {
    c.0.data@ =~= Seq::new(3, |i: int| T::sp_zero())
}

/// A color holding the sky blend along the given ray, channel by channel.
pub open spec fn spec_is_sky<T: Scalar>(ray: Ray<T, 3>, c: Color<T>) -> bool {
    c.0.data@.len() == 3 && (forall|i: int|
        0 <= i < 3 ==> #[trigger] c.0.data@[i] == spec_sky_at(ray, i))
}

/// The shade a surface without a material shows: half its normal plus one
/// half, channel by channel.
pub open spec fn spec_is_debug_shade<T: Scalar>(rec: HitRecord<T>, c: Color<T>) -> bool {
    c.0.data@.len() == 3 && (forall|i: int|
        0 <= i < 3 ==> #[trigger] c.0.data@[i] == rec.normal.data@[i].sp_mul(
            T::sp_num(1, 2),
        ).sp_add(T::sp_num(1, 2)))
}

/// One interior link of a radiance chain: the ray at this bounce meets a
/// surface with a material, and some scatter outcome the material's
/// contract allows leads to the next link's ray, this link's radiance being
/// the attenuation times the next link's.
pub open spec fn spec_link_ok<T: Scalar>(
    objects: Seq<SceneObject<T>>,
    cur: (Ray<T, 3>, Color<T>),
    nxt: (Ray<T, 3>, Color<T>),
) -> bool {
    match spec_list_hit(objects, cur.0, spec_shadow_range::<T>(), objects.len() as int) {
        Some(p) => match p.1 {
            Some(m) => exists|sc: ScatterResult<T>|
                {
                    &&& #[trigger] spec_scatter_rel(m, cur.0, p.0, Some(sc))
                    &&& sc.ray == nxt.0
                    &&& cur.1.0.data@ == seq_mul(sc.attenuation.0.data@, nxt.1.0.data@)
                },
            None => false,
        },
        None => false,
    }
}

/// The final link of a radiance chain: black when the remaining depth is
/// spent; otherwise the sky on a miss, the debug shade on a hit without a
/// material, and black on an absorbing scatter outcome.
pub open spec fn spec_tail_ok<T: Scalar>(
    objects: Seq<SceneObject<T>>,
    last: (Ray<T, 3>, Color<T>),
    remaining: u32,
) -> bool {
    if remaining == 0 {
        spec_is_black(last.1)
    } else {
        match spec_list_hit(objects, last.0, spec_shadow_range::<T>(), objects.len() as int) {
            None => spec_is_sky(last.0, last.1),
            Some(p) => match p.1 {
                None => spec_is_debug_shade(p.0, last.1),
                Some(m) => spec_scatter_rel(m, last.0, p.0, None) && spec_is_black(last.1),
            },
        }
    }
}

/// A radiance chain: the bounces one sample takes, each entry a ray and the
/// radiance attributed to it.  Interior entries scatter into their
/// successor; the last entry terminates; the chain cannot outlast the depth
/// budget.
pub open spec fn spec_chain_ok<T: Scalar>(
    objects: Seq<SceneObject<T>>,
    trace: Seq<(Ray<T, 3>, Color<T>)>,
    depth: u32,
) -> bool {
    &&& 1 <= trace.len() <= depth + 1
    &&& forall|i: int|
        0 <= i < trace.len() - 1 ==> spec_link_ok(objects, #[trigger] trace[i], trace[i + 1])
    &&& spec_tail_ok(objects, trace[trace.len() - 1], (depth + 1 - trace.len()) as u32)
}

/// What a radiance sample may be, whatever the generator draws: the head of
/// some valid chain of bounces.
pub open spec fn spec_radiance<T: Scalar>(
    objects: Seq<SceneObject<T>>,
    ray: Ray<T, 3>,
    depth: u32,
    result: Color<T>,
) -> bool {
    exists|trace: Seq<(Ray<T, 3>, Color<T>)>|
        {
            &&& #[trigger] spec_chain_ok(objects, trace, depth)
            &&& trace[0].0 == ray
            &&& trace[0].1 == result
        }
}

/// The running sum of the first `n` sampled colors, channel by channel.
pub open spec fn spec_color_sum<T: Scalar>(samples: Seq<(Ray<T, 3>, Color<T>)>, n: int) -> Seq<T>
    decreases n,
{
    if n <= 0 {
        Seq::new(3, |i: int| T::sp_zero())
    } else {
        seq_add(spec_color_sum(samples, n - 1), samples[n - 1].1.0.data@)
    }
}

/// Appending a sample does not change the sum over the earlier prefix.
proof fn lemma_color_sum_push<T: Scalar>(
    samples: Seq<(Ray<T, 3>, Color<T>)>,
    x: (Ray<T, 3>, Color<T>),
    n: int,
)
    requires
        0 <= n <= samples.len(),
    ensures
        spec_color_sum(samples.push(x), n) == spec_color_sum(samples, n),
    decreases n,
{
    if n > 0 {
        lemma_color_sum_push(samples, x, n - 1);
    }
}

/// A clamped average of valid samples makes a valid pixel.
proof fn lemma_pixel_intro<T: Scalar>(
    tracer: RayTracer<T>,
    objects: Seq<SceneObject<T>>,
    col: u32,
    row: u32,
    averaged: Color<T>,
    pix: Color<T>,
)
    requires
        exists|samples: Seq<(Ray<T, 3>, Color<T>)>|
            #![trigger spec_color_sum(samples, tracer.spec_sampling_rate() as int)]
            {
                &&& samples.len() == tracer.spec_sampling_rate()
                &&& (forall|i: int|
                    0 <= i < samples.len() ==> tracer.spec_sample_ok(
                        objects,
                        col,
                        row,
                        #[trigger] samples[i],
                    ))
                &&& averaged.0.data@ == seq_div_scalar(
                    spec_color_sum(samples, tracer.spec_sampling_rate() as int),
                    T::sp_num(tracer.spec_sampling_rate(), 1),
                )
            },
        pix.0.data@.len() == 3,
        forall|i: int|
            0 <= i < 3 ==> #[trigger] pix.0.data@[i] == (Interval {
                min: T::sp_zero(),
                max: T::sp_one(),
            }).spec_clamp(averaged.0.data@[i]),
    ensures
        tracer.spec_pixel_ok(objects, col, row, pix),
{
    let samples = choose|samples: Seq<(Ray<T, 3>, Color<T>)>|
        #![trigger spec_color_sum(samples, tracer.spec_sampling_rate() as int)]
        {
            &&& samples.len() == tracer.spec_sampling_rate()
            &&& (forall|i: int|
                0 <= i < samples.len() ==> tracer.spec_sample_ok(
                    objects,
                    col,
                    row,
                    #[trigger] samples[i],
                ))
            &&& averaged.0.data@ == seq_div_scalar(
                spec_color_sum(samples, tracer.spec_sampling_rate() as int),
                T::sp_num(tracer.spec_sampling_rate(), 1),
            )
        };
    let unit = Interval { min: T::sp_zero(), max: T::sp_one() };
    if crate::interval::order_laws::<T>() && T::sp_zero().sp_le(T::sp_one()) {
        assert forall|i: int| 0 <= i < 3 implies unit.spec_contains(#[trigger] pix.0.data@[i]) by {
            crate::interval::lemma_clamp_contained(unit, averaged.0.data@[i]);
        }
    }
}

/// The derived viewport: its world extent, edges, per-pixel steps, and the
/// points the pixel grid is anchored at.
struct Viewport<T: Scalar> {
    pub width: T,
    pub height: T,
    pub u_vector: Vector<T, 3>,
    pub v_vector: Vector<T, 3>,
    pub du_vector: Vector<T, 3>,
    pub dv_vector: Vector<T, 3>,
    pub upper_left: Vector<T, 3>,
    pub pixel_origin: Vector<T, 3>,
}

/// The derived camera: its frame, defocus disk, and the optics it was asked
/// for.
struct Camera<T: Scalar> {
    pub position: Vector<T, 3>,
    pub view_up: Vector<T, 3>,
    pub view_right: Vector<T, 3>,
    pub view_dir: Vector<T, 3>,
    pub defocus_disk_u_vec: Vector<T, 3>,
    pub defocus_disk_v_vec: Vector<T, 3>,
    pub vfov: T,
    pub defocus_angle: T,
    pub focus_distance: T,
}

/// The renderer: a camera and viewport derived once, and the sampling
/// parameters.
pub struct RayTracer<T: Scalar> {
    dimension: Dimension,
    viewport: Viewport<T>,
    camera: Camera<T>,
    sampling_rate: u32,
    max_depth: u32,
}

impl<T: Scalar> RayTracer<T> {
    /// The image size in pixels.
    pub closed spec fn spec_dimension(self) -> Dimension {
        self.dimension
    }

    pub closed spec fn spec_sampling_rate(self) -> u32 {
        self.sampling_rate
    }

    pub closed spec fn spec_max_depth(self) -> u32 {
        self.max_depth
    }

    /// The center of pixel (0, 0).
    pub closed spec fn spec_origin_of_pixels(self) -> Seq<T> {
        self.viewport.pixel_origin.data@
    }

    /// One pixel's horizontal step.
    pub closed spec fn spec_du(self) -> Seq<T> {
        self.viewport.du_vector.data@
    }

    /// One pixel's vertical step.
    pub closed spec fn spec_dv(self) -> Seq<T> {
        self.viewport.dv_vector.data@
    }

    /// The center of the given pixel: the grid origin stepped by its column
    /// and row.
    pub open spec fn spec_pixel_center(self, col: u32, row: u32) -> Seq<T> {
        seq_add(
            seq_add(
                self.spec_origin_of_pixels(),
                seq_mul_scalar(self.spec_du(), T::sp_num(col, 1)),
            ),
            seq_mul_scalar(self.spec_dv(), T::sp_num(row, 1)),
        )
    }

    /// What one sample of a pixel may be, whatever the generator draws: for
    /// some jitter pair and disk point, the ray starts at the camera (or on
    /// the defocus disk when a cone is set), heads with unit direction at
    /// the jittered pixel center, and the color is a radiance of that ray.
    pub open spec fn spec_sample_ok(
        self,
        objects: Seq<SceneObject<T>>,
        col: u32,
        row: u32,
        sr: (Ray<T, 3>, Color<T>),
    ) -> bool {
        exists|jx: T, jy: T, dp: Vector<T, 2>|
            #![trigger seq_mul_scalar(self.spec_du(), jx), seq_mul_scalar(self.spec_dv(), jy), seq_mul_scalar(self.spec_disk_u(), dp.data@[0])]
            {
                let sample = seq_add(
                    self.spec_pixel_center(col, row),
                    seq_add(
                        seq_mul_scalar(self.spec_du(), jx),
                        seq_mul_scalar(self.spec_dv(), jy),
                    ),
                );
                let origin = if !T::sp_zero().sp_lt(self.spec_defocus_angle()) {
                    self.spec_position()
                } else {
                    seq_add(
                        seq_add(
                            self.spec_position(),
                            seq_mul_scalar(self.spec_disk_u(), dp.data@[0]),
                        ),
                        seq_mul_scalar(self.spec_disk_v(), dp.data@[1]),
                    )
                };
                &&& sr.0.origin.data@ == origin
                &&& sr.0.direction.data@ == unit3(seq_sub(sample, origin))
                &&& spec_radiance(objects, sr.0, self.spec_max_depth(), sr.1)
            }
    }

    /// Where the camera stands.
    pub closed spec fn spec_position(self) -> Seq<T> {
        self.camera.position.data@
    }

    /// The defocus cone angle the camera was asked for.
    pub closed spec fn spec_defocus_angle(self) -> T {
        self.camera.defocus_angle
    }

    /// One basis vector of the defocus disk.
    pub closed spec fn spec_disk_u(self) -> Seq<T> {
        self.camera.defocus_disk_u_vec.data@
    }

    /// The other basis vector of the defocus disk.
    pub closed spec fn spec_disk_v(self) -> Seq<T> {
        self.camera.defocus_disk_v_vec.data@
    }

    pub fn dimension(&self) -> (r: Dimension)
        ensures
            r == self.spec_dimension(),
    {
        self.dimension
    }

    /// What one finished pixel may be, whatever the generator draws: the
    /// average of `sampling_rate` per-pixel samples, clamped into the unit
    /// range channel by channel; under a total coordinate order the clamped
    /// channels then lie inside the unit range.
    pub open spec fn spec_pixel_ok(
        self,
        objects: Seq<SceneObject<T>>,
        col: u32,
        row: u32,
        pix: Color<T>,
    ) -> bool {
        exists|samples: Seq<(Ray<T, 3>, Color<T>)>|
            #![trigger spec_color_sum(samples, self.spec_sampling_rate() as int)]
            {
                let avg = seq_div_scalar(
                    spec_color_sum(samples, self.spec_sampling_rate() as int),
                    T::sp_num(self.spec_sampling_rate(), 1),
                );
                &&& samples.len() == self.spec_sampling_rate()
                &&& (forall|i: int|
                    0 <= i < samples.len() ==> self.spec_sample_ok(
                        objects,
                        col,
                        row,
                        #[trigger] samples[i],
                    ))
                &&& pix.0.data@.len() == 3
                &&& (forall|i: int|
                    0 <= i < 3 ==> #[trigger] pix.0.data@[i] == (Interval {
                        min: T::sp_zero(),
                        max: T::sp_one(),
                    }).spec_clamp(avg[i]))
                &&& (crate::interval::order_laws::<T>() && T::sp_zero().sp_le(T::sp_one())
                    ==> forall|i: int|
                    0 <= i < 3 ==> (Interval { min: T::sp_zero(), max: T::sp_one() }).spec_contains(
                        #[trigger] pix.0.data@[i],
                    ))
            }
    }

    /// Derive the camera and viewport from the parameters, as the
    /// specification functions above lay out.
    pub fn new(params: TracerParams<T>) -> (r: Self)
        ensures
            r.spec_dimension() == (Dimension { width: spec_width(params), height: params.height }),
            r.spec_sampling_rate() == params.sampling_rate,
            r.spec_max_depth() == params.max_depth,
            r.spec_origin_of_pixels() == spec_pixel_origin(params),
            r.spec_du() == spec_du_vector(params),
            r.spec_dv() == spec_dv_vector(params),
            r.spec_position() == params.look_from.data@,
            r.spec_defocus_angle() == params.defocus_angle,
            r.spec_disk_u() == seq_mul_scalar(spec_view_right(params), spec_defocus_radius(params)),
            r.spec_disk_v() == seq_mul_scalar(spec_view_up(params), spec_defocus_radius(params)),
    {
        let world_up: Vector<T, 3> = Vector::new([T::el_zero(), T::el_one(), T::el_zero()]);
        proof {
            assert(world_up.data@ =~= spec_world_up::<T>());
        }

        let cam_center = params.look_from;

        let offset = cam_center - params.look_at;
        let view_dir = offset.unit_vector();
        proof {
            assert(offset.data@ =~= seq_sub(params.look_from.data@, params.look_at.data@));
            assert(view_dir.data@ =~= spec_view_dir(params));
        }
        let crossed = world_up.cross(view_dir);
        proof {
            assert(crossed.data@ =~= cross3(spec_world_up::<T>(), spec_view_dir(params)));
        }
        let view_right = crossed.unit_vector();
        proof {
            assert(view_right.data@ =~= spec_view_right(params));
        }
        let view_up = view_dir.cross(view_right);
        proof {
            assert(view_up.data@ =~= spec_view_up(params));
        }

        let two = T::el_num(2, 1);
        let theta = params.vfov.el_to_radians();
        let h = theta.el_div(two).el_tan();

        let height = params.height;
        let width = T::el_num(height, 1).el_mul(params.aspect_ratio).el_add(
            T::el_num(1, 2),
        ).el_trunc_u32();

        let actual_ratio = T::el_num(width, 1).el_div(T::el_num(height, 1));
        let view_height = two.el_mul(h).el_mul(params.focus_distance);
        let view_width = view_height.el_mul(actual_ratio);

        let view_u_vec = view_right * view_width;
        let view_v_vec = core::ops::Neg::neg(view_up) * view_height;
        proof {
            assert(view_u_vec.data@ =~= spec_u_vector(params));
            assert(view_v_vec.data@ =~= spec_v_vector(params));
        }
        let view_du_vec = view_u_vec / T::el_num(width, 1);
        let view_dv_vec = view_v_vec / T::el_num(height, 1);
        proof {
            assert(view_du_vec.data@ =~= spec_du_vector(params));
            assert(view_dv_vec.data@ =~= spec_dv_vector(params));
        }

        let view_upper_left = cam_center - (view_dir * params.focus_distance) - view_u_vec / two
            - view_v_vec / two;
        proof {
            assert(view_upper_left.data@ =~= spec_upper_left(params));
        }
        let view_pixel_origin = view_upper_left + (view_du_vec + view_dv_vec) * T::el_num(1, 2);
        proof {
            assert(view_pixel_origin.data@ =~= spec_pixel_origin(params));
        }

        let defocus_radius = params.focus_distance.el_mul(
            params.defocus_angle.el_div(two).el_to_radians().el_tan(),
        );
        let defocus_disk_u_vec = view_right * defocus_radius;
        let defocus_disk_v_vec = view_up * defocus_radius;
        proof {
            assert(defocus_disk_u_vec.data@ =~= seq_mul_scalar(
                spec_view_right(params),
                spec_defocus_radius(params),
            ));
            assert(defocus_disk_v_vec.data@ =~= seq_mul_scalar(
                spec_view_up(params),
                spec_defocus_radius(params),
            ));
        }

        let dimension = Dimension { width, height };

        let viewport = Viewport {
            width: view_width,
            height: view_height,
            u_vector: view_u_vec,
            v_vector: view_v_vec,
            du_vector: view_du_vec,
            dv_vector: view_dv_vec,
            upper_left: view_upper_left,
            pixel_origin: view_pixel_origin,
        };

        let camera = Camera {
            position: cam_center,
            view_up,
            view_right,
            view_dir,
            defocus_disk_u_vec,
            defocus_disk_v_vec,
            vfov: params.vfov,
            defocus_angle: params.defocus_angle,
            focus_distance: params.focus_distance,
        };

        Self {
            dimension,
            viewport,
            camera,
            sampling_rate: params.sampling_rate,
            max_depth: params.max_depth,
        }
    }

    /// One sample's radiance, recursively: black at exhausted depth; the
    /// sky where nothing is hit; scattered radiance filtered by the
    /// material's attenuation; black where the material absorbs; and a
    /// normal-derived shade where the surface has no material.  The result
    /// heads a valid chain of bounces, and the deterministic outcomes are
    /// stated outright.
    fn ray_color<S: RandomSource<T>>(
        &self,
        ray: Ray<T, 3>,
        depth: u32,
        scene: &HittableList<T>,
        source: &mut S,
    ) -> (r: Color<T>)
        ensures
            spec_radiance(scene.spec_objects(), ray, depth, r),
            depth == 0 ==> spec_is_black(r),
            depth > 0 && spec_list_hit(
                scene.spec_objects(),
                ray,
                spec_shadow_range::<T>(),
                scene.spec_objects().len() as int,
            ) is None ==> spec_is_sky(ray, r),
        decreases depth,
    {
        let ghost objects = scene.spec_objects();
        if depth == 0 {
            let res = Color::new_one(T::el_zero());
            proof {
                let trace = seq![(ray, res)];
                assert(spec_tail_ok(objects, trace[0], 0u32));
                assert(spec_chain_ok(objects, trace, depth));
            }
            return res;
        }

        let range = Interval::new(T::el_num(1, 1000), T::el_inf());
        proof {
            assert(range == spec_shadow_range::<T>());
        }
        match scene.hit(ray, range) {
            Some(HitResult { record, material }) => {
                let ghost p = spec_list_hit(
                    objects,
                    ray,
                    spec_shadow_range::<T>(),
                    objects.len() as int,
                )->Some_0;
                proof {
                    assert(p.0 == record);
                }
                let normal = record.normal;
                match material {
                    Some(m) => {
                        proof {
                            assert(p.1 == Some(*m));
                        }
                        let scatter_result = m.scatter(ray, record, source);
                        let ghost out_g = scatter_result;
                        match scatter_result {
                            Some(scattered) => {
                                let tail = self.ray_color(scattered.ray, depth - 1, scene, source);
                                let res = scattered.attenuation * tail;
                                proof {
                                    let t2 = choose|t: Seq<(Ray<T, 3>, Color<T>)>|
                                        {
                                            &&& #[trigger] spec_chain_ok(
                                                objects,
                                                t,
                                                (depth - 1) as u32,
                                            )
                                            &&& t[0].0 == scattered.ray
                                            &&& t[0].1 == tail
                                        };
                                    let trace = seq![(ray, res)] + t2;
                                    assert(trace[0] == (ray, res));
                                    assert(forall|j: int|
                                        0 <= j < t2.len() ==> trace[j + 1] == #[trigger] t2[j]);
                                    assert(spec_scatter_rel(
                                        p.1->Some_0,
                                        ray,
                                        p.0,
                                        Some(out_g->Some_0),
                                    ));
                                    assert(spec_link_ok(objects, trace[0], trace[1]));
                                    assert forall|i: int| 0 <= i < trace.len() - 1 implies
                                        spec_link_ok(
                                        objects,
                                        #[trigger] trace[i],
                                        trace[i + 1],
                                    ) by {
                                        if i > 0 {
                                            assert(spec_link_ok(objects, t2[i - 1], t2[i]));
                                        }
                                    }
                                    assert(trace[trace.len() - 1] == t2[t2.len() - 1]);
                                    assert(spec_tail_ok(
                                        objects,
                                        trace[trace.len() - 1],
                                        (depth + 1 - trace.len()) as u32,
                                    ));
                                    assert(spec_chain_ok(objects, trace, depth));
                                }
                                res
                            },
                            None => {
                                let res = Color::new_one(T::el_zero());
                                proof {
                                    assert(spec_scatter_rel(p.1->Some_0, ray, p.0, None));
                                    let trace = seq![(ray, res)];
                                    assert(spec_tail_ok(objects, trace[0], depth));
                                    assert(spec_chain_ok(objects, trace, depth));
                                }
                                res
                            },
                        }
                    },
                    None => {
                        let half = T::el_num(1, 2);
                        let res = Color::from(normal * half + half);
                        proof {
                            assert(spec_is_debug_shade(p.0, res));
                            let trace = seq![(ray, res)];
                            assert(spec_tail_ok(objects, trace[0], depth));
                            assert(spec_chain_ok(objects, trace, depth));
                        }
                        res
                    },
                }
            },
            None => {
                let direction = ray.direction.unit_vector();
                let a = T::el_num(1, 2).el_mul(direction.data[1].el_add(T::el_one()));
                let white = Color::new_one(T::el_one());
                let blue = Color::new([T::el_num(1, 2), T::el_num(7, 10), T::el_num(1, 1)]);

                let r = white * (T::el_one().el_sub(a)) + blue * a;
                proof {
                    assert(forall|i: int| 0 <= i < 3 ==> #[trigger] r.0.data@[i] == spec_sky_at(
                        ray,
                        i,
                    ));
                    let trace = seq![(ray, r)];
                    assert(spec_tail_ok(objects, trace[0], depth));
                    assert(spec_chain_ok(objects, trace, depth));
                }
                r
            },
        }
    }

    /// The jitter within one pixel: the steps scaled by draws centered on
    /// the pixel.
    fn sample_unit_square<S: RandomSource<T>>(&self, source: &mut S) -> (r: Vector<T, 3>)
        ensures
            exists|px: T, py: T|
                r.data@ == #[trigger] seq_add(
                    seq_mul_scalar(self.spec_du(), px),
                    seq_mul_scalar(self.spec_dv(), py),
                ),
    {
        let half = T::el_num(1, 2);
        let px = source.uniform(T::el_zero(), T::el_one()).el_sub(half);
        let py = source.uniform(T::el_zero(), T::el_one()).el_sub(half);
        let r = self.viewport.du_vector * px + self.viewport.dv_vector * py;
        proof {
            assert(r.data@ =~= seq_add(
                seq_mul_scalar(self.spec_du(), px),
                seq_mul_scalar(self.spec_dv(), py),
            ));
        }
        r
    }

    /// A point of the camera's defocus disk: the position pushed along the
    /// disk basis by a disk sample's coordinates.
    fn defocus_disk_sample<S: RandomSource<T>>(&self, source: &mut S) -> (r: Vector<T, 3>)
        ensures
            exists|p: Vector<T, 2>|
                {
                    &&& (#[trigger] p.spec_length_squared()).sp_lt(T::sp_one()) || p.data@
                        =~= Seq::new(2, |i: int| T::sp_zero())
                    &&& r.data@ == seq_add(
                        seq_add(
                            self.spec_position(),
                            seq_mul_scalar(self.spec_disk_u(), p.data@[0]),
                        ),
                        seq_mul_scalar(self.spec_disk_v(), p.data@[1]),
                    )
                },
    {
        let p = random_in_unit_disk::<T, S>(source);
        let x = p.data[0];
        let y = p.data[1];
        let r = self.camera.position + self.camera.defocus_disk_u_vec * x
            + self.camera.defocus_disk_v_vec * y;
        proof {
            assert(r.data@ =~= seq_add(
                seq_add(self.spec_position(), seq_mul_scalar(self.spec_disk_u(), p.data@[0])),
                seq_mul_scalar(self.spec_disk_v(), p.data@[1]),
            ));
        }
        r
    }

    /// The averaged radiance of one pixel: `sampling_rate` jittered,
    /// defocused, time-jittered samples, divided by the rate.
    fn sample_color_at<S: RandomSource<T>>(
        &self,
        col: u32,
        row: u32,
        scene: &HittableList<T>,
        source: &mut S,
    ) -> (r: Color<T>)
        ensures
            exists|samples: Seq<(Ray<T, 3>, Color<T>)>|
                #![trigger spec_color_sum(samples, self.spec_sampling_rate() as int)]
                {
                    &&& samples.len() == self.spec_sampling_rate()
                    &&& (forall|i: int|
                        0 <= i < samples.len() ==> self.spec_sample_ok(
                            scene.spec_objects(),
                            col,
                            row,
                            #[trigger] samples[i],
                        ))
                    &&& r.0.data@ == seq_div_scalar(
                        spec_color_sum(samples, self.spec_sampling_rate() as int),
                        T::sp_num(self.spec_sampling_rate(), 1),
                    )
                },
    {
        let ghost objects = scene.spec_objects();
        let mut accumulated_color = Color::new_one(T::el_zero());
        let ghost mut samples: Seq<(Ray<T, 3>, Color<T>)> = Seq::empty();

        let pixel_center = self.viewport.pixel_origin + (self.viewport.du_vector * T::el_num(
            col,
            1,
        )) + (self.viewport.dv_vector * T::el_num(row, 1));
        proof {
            assert(pixel_center.data@ =~= self.spec_pixel_center(col, row));
        }

        let mut s: u32 = 0;
        while s < self.sampling_rate
            invariant
                0 <= s <= self.spec_sampling_rate(),
                objects == scene.spec_objects(),
                pixel_center.data@ == self.spec_pixel_center(col, row),
                samples.len() == s,
                accumulated_color.0.data@ == spec_color_sum(samples, s as int),
                forall|i: int|
                    0 <= i < samples.len() ==> self.spec_sample_ok(
                        objects,
                        col,
                        row,
                        #[trigger] samples[i],
                    ),
            decreases self.sampling_rate - s,
        {
            let jitter = self.sample_unit_square(source);
            let pixel_sample = pixel_center + jitter;
            let ray_origin = if !T::el_zero().el_lt(self.camera.defocus_angle) {
                self.camera.position
            } else {
                self.defocus_disk_sample(source)
            };
            let ray_direction = pixel_sample - ray_origin;
            let ray_time = source.uniform(T::el_zero(), T::el_one());

            let ray = Ray {
                origin: ray_origin,
                direction: ray_direction.unit_vector(),
                time: ray_time,
            };

            let sampled = self.ray_color(ray, self.max_depth, scene, source);
            proof {
                let jw = choose|jx: T, jy: T|
                    jitter.data@ == #[trigger] seq_add(
                        seq_mul_scalar(self.spec_du(), jx),
                        seq_mul_scalar(self.spec_dv(), jy),
                    );
                let sample = seq_add(
                    self.spec_pixel_center(col, row),
                    seq_add(
                        seq_mul_scalar(self.spec_du(), jw.0),
                        seq_mul_scalar(self.spec_dv(), jw.1),
                    ),
                );
                assert(pixel_sample.data@ =~= sample);
                assert(ray_direction.data@ =~= seq_sub(sample, ray_origin.data@));
                if !T::sp_zero().sp_lt(self.spec_defocus_angle()) {
                    // any disk point serves as the witness when no cone is set;
                    // naming its scaled form seeds the existential's trigger
                    let dp = crate::vec::spec_v2(T::sp_zero(), T::sp_zero());
                    assert(seq_mul_scalar(self.spec_disk_u(), dp.data@[0]) == seq_mul_scalar(
                        self.spec_disk_u(),
                        dp.data@[0],
                    ));
                    assert(self.spec_sample_ok(objects, col, row, (ray, sampled)));
                } else {
                    let dp = choose|p: Vector<T, 2>|
                        {
                            &&& ((#[trigger] p.spec_length_squared()).sp_lt(T::sp_one()) || p.data@
                                =~= Seq::new(2, |i: int| T::sp_zero()))
                            &&& ray_origin.data@ == seq_add(
                                seq_add(
                                    self.spec_position(),
                                    seq_mul_scalar(self.spec_disk_u(), p.data@[0]),
                                ),
                                seq_mul_scalar(self.spec_disk_v(), p.data@[1]),
                            )
                        };
                    // naming the drawn disk point's scaled form seeds the trigger
                    assert(seq_mul_scalar(self.spec_disk_u(), dp.data@[0]) == seq_mul_scalar(
                        self.spec_disk_u(),
                        dp.data@[0],
                    ));
                    assert(self.spec_sample_ok(objects, col, row, (ray, sampled)));
                }
            }
            accumulated_color = accumulated_color + sampled;
            proof {
                lemma_color_sum_push(samples, (ray, sampled), s as int);
                samples = samples.push((ray, sampled));
                assert(samples[s as int] == (ray, sampled));
                assert(accumulated_color.0.data@ =~= spec_color_sum(samples, s + 1));
            }
            s = s + 1;
        }

        let r = accumulated_color / T::el_num(self.sampling_rate, 1);
        proof {
            assert(r.0.data@ =~= seq_div_scalar(
                spec_color_sum(samples, self.spec_sampling_rate() as int),
                T::sp_num(self.spec_sampling_rate(), 1),
            ));
        }
        r
    }

    /// Render one row of the grid: every pixel of that row in order, each
    /// clamped to the unit range.  The multi-threaded driver hands rows of
    /// the interleaved assignment to this function.
    pub fn render_row<S: RandomSource<T>>(
        &self,
        row: u32,
        scene: &HittableList<T>,
        source: &mut S,
    ) -> (r: Vec<Color<T>>)
        ensures
            r@.len() == self.spec_dimension().width,
            forall|c: int|
                0 <= c < r@.len() ==> self.spec_pixel_ok(
                    scene.spec_objects(),
                    c as u32,
                    row,
                    #[trigger] r@[c],
                ),
    {
        let ghost objects = scene.spec_objects();
        let width = self.dimension.width;
        let mut pixels = Vec::<Color<T>>::with_capacity(width as usize);
        let unit_range = Interval::new(T::el_zero(), T::el_one());

        let mut col: u32 = 0;
        while col < width
            invariant
                self.spec_dimension().width == width,
                objects == scene.spec_objects(),
                0 <= col <= width,
                pixels@.len() == col,
                forall|c: int|
                    0 <= c < pixels@.len() ==> self.spec_pixel_ok(
                        objects,
                        c as u32,
                        row,
                        #[trigger] pixels@[c],
                    ),
                unit_range == (Interval { min: T::sp_zero(), max: T::sp_one() }),
            decreases width - col,
        {
            let averaged = self.sample_color_at(col, row, scene, source);
            let color = averaged.clamp(unit_range);
            proof {
                lemma_pixel_intro(*self, objects, col, row, averaged, color);
            }
            pixels.push(color);
            col = col + 1;
        }
        pixels
    }

    /// Render the scene on the calling thread: every pixel of the grid in
    /// row-major order, the pixel at index `row * width + col` being a
    /// clamped averaged sample of that position.
    pub fn render<S: RandomSource<T>>(&self, scene: &HittableList<T>, source: &mut S) -> (r:
        Image<T>)
        requires
            self.spec_dimension().width * self.spec_dimension().height <= usize::MAX,
        ensures
            r.dimension == self.spec_dimension(),
            r.pixels@.len() == self.spec_dimension().width * self.spec_dimension().height,
            forall|q: int|
                0 <= q < r.pixels@.len() ==> self.spec_pixel_ok(
                    scene.spec_objects(),
                    (q % self.spec_dimension().width as int) as u32,
                    (q / self.spec_dimension().width as int) as u32,
                    #[trigger] r.pixels@[q],
                ),
    {
        let ghost objects = scene.spec_objects();
        let width = self.dimension.width;
        let height = self.dimension.height;
        let mut pixels = Vec::<Color<T>>::with_capacity((width as usize) * (height as usize));

        let mut row: u32 = 0;
        while row < height
            invariant
                self.spec_dimension().width == width,
                self.spec_dimension().height == height,
                objects == scene.spec_objects(),
                width * height <= usize::MAX,
                0 <= row <= height,
                pixels@.len() == row * width,
                forall|q: int|
                    0 <= q < pixels@.len() ==> self.spec_pixel_ok(
                        objects,
                        (q % width as int) as u32,
                        (q / width as int) as u32,
                        #[trigger] pixels@[q],
                    ),
            decreases height - row,
        {
            let cols = self.render_row(row, scene, source);
            let ghost row_view = cols@;
            let mut i: usize = 0;
            while i < cols.len()
                invariant
                    self.spec_dimension().width == width,
                    objects == scene.spec_objects(),
                    width * height <= usize::MAX,
                    0 <= row < height,
                    cols@ == row_view,
                    row_view.len() == width,
                    0 <= i <= width,
                    pixels@.len() == row * width + i,
                    forall|c: int|
                        0 <= c < row_view.len() ==> self.spec_pixel_ok(
                            objects,
                            c as u32,
                            row,
                            #[trigger] row_view[c],
                        ),
                    forall|q: int|
                        0 <= q < pixels@.len() ==> self.spec_pixel_ok(
                            objects,
                            (q % width as int) as u32,
                            (q / width as int) as u32,
                            #[trigger] pixels@[q],
                        ),
                decreases width - i,
            {
                proof {
                    assert(row * width + i < width * height) by (nonlinear_arith)
                        requires
                            0 <= row < height,
                            0 <= i < width,
                    ;
                    let q = row * width + i;
                    assert(q % width as int == i && q / width as int == row)
                        by (nonlinear_arith)
                        requires
                            q == row * width + i,
                            0 <= i < width,
                            0 <= row,
                    ;
                }
                let pixel = cols[i];
                proof {
                    assert(self.spec_pixel_ok(objects, i as u32, row, pixel));
                }
                pixels.push(pixel);
                i = i + 1;
            }
            row = row + 1;
            proof {
                assert((row - 1) * width + width == row * width) by (nonlinear_arith);
            }
        }

        proof {
            assert(height * width == width * height) by (nonlinear_arith);
        }
        Image { pixels, dimension: self.dimension.clone() }
    }
}

/// Whether the interleaved assignment hands the row to the worker: rows
/// `worker, worker + workers, worker + 2 * workers, ...` are the worker's.
pub open spec fn spec_assigned(worker: int, workers: int, row: int) -> bool {
    0 <= worker < workers && (row - worker) % workers == 0
}

/// How many rows are still to be visited from position `next`.
pub open spec fn spec_rows_left(height: int, next: int) -> int {
    if next < height {
        height - next
    } else {
        0
    }
}

/// The rows one worker renders in the multi-threaded driver, in order.
pub fn rows_for_worker(worker: u32, workers: u32, height: u32) -> (r: Vec<u32>)
    requires
        workers > 0,
        worker < workers,
    ensures
        forall|k: int| 0 <= k < r@.len() ==> #[trigger] r@[k] == worker + k * workers,
        forall|k: int| 0 <= k < r@.len() ==> #[trigger] r@[k] < height,
        forall|row: u32|
            row < height && spec_assigned(worker as int, workers as int, row as int)
                ==> r@.contains(row),
{
    let mut rows: Vec<u32> = Vec::new();
    let mut next: u64 = worker as u64;
    proof {
        assert(rows@.len() == 0);
        assert(next == worker + rows@.len() * workers) by (nonlinear_arith)
            requires
                rows@.len() == 0,
                next == worker,
        ;
        assert forall|row: u32|
            row < height && row < next && spec_assigned(
                worker as int,
                workers as int,
                row as int,
            ) implies rows@.contains(row) by {
            assert(false) by (nonlinear_arith)
                requires
                    workers > 0,
                    0 <= row < worker < workers,
                    (row as int - worker as int) % (workers as int) == 0,
            ;
        }
    }
    while next < height as u64
        invariant
            workers > 0,
            worker < workers,
            next <= u32::MAX as u64 + workers as u64,
            next == worker + rows@.len() * workers,
            forall|k: int| 0 <= k < rows@.len() ==> #[trigger] rows@[k] == worker + k * workers,
            forall|k: int| 0 <= k < rows@.len() ==> #[trigger] rows@[k] < height,
            forall|row: u32|
                row < height && row < next && spec_assigned(
                    worker as int,
                    workers as int,
                    row as int,
                ) ==> rows@.contains(row),
        decreases spec_rows_left(height as int, next as int),
    {
        let ghost prev = rows@;
        rows.push(next as u32);
        next = next + workers as u64;
        proof {
            assert(next == worker + rows@.len() * workers) by (nonlinear_arith)
                requires
                    rows@.len() == prev.len() + 1,
                    next == worker + prev.len() * workers + workers,
            ;
            assert forall|row: u32|
                row < height && row < next && spec_assigned(
                    worker as int,
                    workers as int,
                    row as int,
                ) implies rows@.contains(row) by {
                if row < prev.len() * (workers as int) + worker {
                    assert(prev.contains(row));
                    let k = choose|k: int| 0 <= k < prev.len() && prev[k] == row;
                    assert(rows@[k] == row);
                } else {
                    assert(row as int == worker + prev.len() * workers) by (nonlinear_arith)
                        requires
                            workers > 0,
                            0 <= worker < workers,
                            (row as int - worker as int) % (workers as int) == 0,
                            worker + prev.len() * (workers as int) <= row < worker + prev.len()
                                * (workers as int) + workers,
                    ;
                    assert(rows@[prev.len() as int] == row);
                }
            }
        }
    }
    rows
}

/// Every row of the image belongs to exactly one worker of the interleaved
/// assignment; with each worker covering each of its rows once, every pixel
/// index is written exactly once.
pub proof fn lemma_interleaved_rows_partition(workers: int, height: int, row: int)
    requires
        workers > 0,
        0 <= row < height,
    ensures
        spec_assigned(row % workers, workers, row),
        forall|w1: int, w2: int|
            spec_assigned(w1, workers, row) && spec_assigned(w2, workers, row) ==> w1 == w2,
{
    assert(spec_assigned(row % workers, workers, row)) by (nonlinear_arith)
        requires
            workers > 0,
            0 <= row,
    ;
    assert forall|w1: int, w2: int|
        spec_assigned(w1, workers, row) && spec_assigned(w2, workers, row) implies w1 == w2 by {
        assert(w1 == w2) by (nonlinear_arith)
            requires
                workers > 0,
                0 <= w1 < workers,
                0 <= w2 < workers,
                (row - w1) % workers == 0,
                (row - w2) % workers == 0,
        ;
    }
}

} // verus!
