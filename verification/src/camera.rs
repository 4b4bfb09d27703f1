//! The camera: the size of its image, the fate of a ray that it sends out,
//! and the text of the image that it renders.
use crate::color::{channel, write_color, Color};
use crate::hittable::{Hittable, HittableList};
use crate::interval::Interval;
use crate::point3::Point3;
use crate::ppm::{
    header_text, lemma_header_is_three_lines, lemma_line_feeds_add, lemma_pixel_is_one_line,
    line_feeds, pixel_text, push_header,
};
use crate::scalar::Scalar;
use crate::vec3::Vec3;
use vstd::prelude::*;

verus! {

/// What arithmetic makes of a camera's configuration: a viewport of height
/// 2 at focal length 1 before a camera at the origin.
#[derive(Clone, Copy, Debug)]
pub struct Viewport {
    /// One over the number of samples of a pixel.
    pub pixel_samples_scale: Scalar,
    /// Where the camera stands.
    pub center: Point3,
    /// The middle of the pixel in the upper left corner.
    pub pixel00_loc: Point3,
    /// From a pixel to its right neighbour.
    pub pixel_delta_u: Vec3,
    /// From a pixel to the one below it.
    pub pixel_delta_v: Vec3,
}

#[derive(Clone, Copy, Debug)]
pub struct Camera {
    pub aspect_ratio: Scalar,
    pub image_width: u32,
    pub samples_per_pixel: u32,
    pub max_depth: u32,
    pub image_height: u32,
    pub pixel_samples_scale: Scalar,
    pub center: Point3,
    pub pixel00_loc: Point3,
    pub pixel_delta_u: Vec3,
    pub pixel_delta_v: Vec3,
}

/// What a ray met when it was cast into the world.
#[derive(Clone, Copy, Debug)]
pub enum Outcome {
    /// No surface.
    Miss,
    /// A surface that absorbed it.
    Absorbed,
    /// A surface that scattered it.
    Scattered,
}

/// What the integrator does with a ray.
#[derive(Clone, Copy, Debug, PartialEq, Eq, Structural)]
pub enum Trace {
    /// The path ends without light.
    Black,
    /// The path ends in the sky: the gradient at the ray's direction.
    Sky,
    /// The ray is cast into the world, with `depth` bounces left, this one
    /// counted.
    Cast { depth: u32 },
}

impl Camera {
    /// The height of an image, from the quotient of its width and its
    /// aspect ratio: the quotient rounded, and 1 where that is less.
    pub open spec fn spec_image_height(quotient: Scalar) -> int {
        if quotient.rounded() < 1 {
            1
        } else {
            quotient.rounded()
        }
    }

    /// The image has at least one row.
    pub open spec fn well_formed(&self) -> bool {
        self.image_height >= 1
    }

    /// What is done with a ray that has `depth` bounces left: nothing more
    /// where none is left.
    pub open spec fn spec_begin(depth: u32) -> Trace {
        if depth == 0 {
            Trace::Black
        } else {
            Trace::Cast { depth }
        }
    }

    /// What is done with a ray that has `depth` bounces left and met `cast`.
    pub open spec fn spec_ray_color(depth: u32, cast: Outcome) -> Trace {
        if depth == 0 {
            Trace::Black
        } else {
            match cast {
                Outcome::Miss => Trace::Sky,
                Outcome::Absorbed => Trace::Black,
                Outcome::Scattered => Camera::spec_begin((depth - 1) as u32),
            }
        }
    }

    /// Where a path stands after its rays met `casts` in turn, and how many
    /// of them were cast before the path ended.
    pub open spec fn path(trace: Trace, casts: Seq<Outcome>) -> (Trace, nat)
        decreases casts.len(),
    {
        match trace {
            Trace::Cast { depth } => if casts.len() > 0 {
                let rest = Camera::path(Camera::spec_ray_color(depth, casts[0]), casts.skip(1));
                (rest.0, rest.1 + 1)
            } else {
                (trace, 0)
            },
            _ => (trace, 0),
        }
    }

    /// The lines of the first `n` pixels of a row, from the left. A pixel
    /// is its colour and the square roots of the colour's channels.
    pub open spec fn row_text(row: Seq<(Color, Color)>, n: nat) -> Seq<u8>
        decreases n,
    {
        if n == 0 {
            Seq::empty()
        } else {
            let pixel = row[n - 1];
            Camera::row_text(row, (n - 1) as nat) + pixel_text(
                channel(pixel.0.x, pixel.1.x) as nat,
                channel(pixel.0.y, pixel.1.y) as nat,
                channel(pixel.0.z, pixel.1.z) as nat,
            )
        }
    }

    /// The lines of the first `n` rows, from the top.
    pub open spec fn rows_text(rows: Seq<Vec<(Color, Color)>>, n: nat) -> Seq<u8>
        decreases n,
    {
        if n == 0 {
            Seq::empty()
        } else {
            Camera::rows_text(rows, (n - 1) as nat) + Camera::row_text(
                rows[n - 1]@,
                rows[n - 1]@.len(),
            )
        }
    }

    /// Whether `rows` holds the pixels of this camera's image: a row for
    /// each line of the image, a pixel for each column.
    pub open spec fn frames(&self, rows: Seq<Vec<(Color, Color)>>) -> bool {
        &&& rows.len() == self.image_height
        &&& forall|j: int| 0 <= j < rows.len() ==> (#[trigger] rows[j])@.len() == self.image_width
    }

    /// The height of an image, from the quotient of its width and its
    /// aspect ratio.
    pub fn image_height(quotient: Scalar) -> (r: u32)
        ensures
            r == Camera::spec_image_height(quotient),
            r >= 1,
    {
        let height: u32 = quotient.round();
        if height < 1 {
            1
        } else {
            height
        }
    }

    /// The camera of this configuration. `quotient` is `image_width` over
    /// `aspect_ratio`, and `viewport` the geometry for `image_width` and the
    /// height that `image_height` gives for `quotient`.
    pub fn initialize(
        aspect_ratio: Scalar,
        image_width: u32,
        samples_per_pixel: u32,
        max_depth: u32,
        quotient: Scalar,
        viewport: Viewport,
    ) -> (r: Camera)
        ensures
            r == (Camera {
                aspect_ratio,
                image_width,
                samples_per_pixel,
                max_depth,
                image_height: Camera::spec_image_height(quotient) as u32,
                pixel_samples_scale: viewport.pixel_samples_scale,
                center: viewport.center,
                pixel00_loc: viewport.pixel00_loc,
                pixel_delta_u: viewport.pixel_delta_u,
                pixel_delta_v: viewport.pixel_delta_v,
            }),
            r.well_formed(),
    {
        Camera {
            aspect_ratio,
            image_width,
            samples_per_pixel,
            max_depth,
            image_height: Camera::image_height(quotient),
            pixel_samples_scale: viewport.pixel_samples_scale,
            center: viewport.center,
            pixel00_loc: viewport.pixel00_loc,
            pixel_delta_u: viewport.pixel_delta_u,
            pixel_delta_v: viewport.pixel_delta_v,
        }
    }

    /// What is done with a ray that has `depth` bounces left.
    pub fn begin(depth: u32) -> (r: Trace)
        ensures
            r == Camera::spec_begin(depth),
    {
        if depth == 0 {
            Trace::Black
        } else {
            Trace::Cast { depth }
        }
    }

    /// What is done with a ray that has `depth` bounces left and met `cast`:
    /// nothing more where no bounce is left or the ray was absorbed; the sky
    /// where it met no surface; and where it was scattered, what is done
    /// with the scattered ray at one bounce less, attenuated.
    pub fn ray_color(depth: u32, cast: Outcome) -> (r: Trace)
        ensures
            r == Camera::spec_ray_color(depth, cast),
    {
        if depth == 0 {
            return Trace::Black;
        }
        match cast {
            Outcome::Miss => Trace::Sky,
            Outcome::Absorbed => Trace::Black,
            Outcome::Scattered => Camera::begin(depth - 1),
        }
    }

    /// The header of the image.
    pub fn header(&self) -> (text: Vec<u8>)
        ensures
            text@ == header_text(self.image_width as nat, self.image_height as nat),
    {
        let mut text: Vec<u8> = Vec::new();
        push_header(&mut text, self.image_width, self.image_height);
        text
    }

    /// The text of the image: the header, then a line for each pixel, row
    /// by row from the top, and each row from the left.
    pub fn render(&self, rows: &Vec<Vec<(Color, Color)>>) -> (text: Vec<u8>)
        requires
            self.frames(rows@),
        ensures
            text@ == header_text(self.image_width as nat, self.image_height as nat)
                + Camera::rows_text(rows@, self.image_height as nat),
    {
        let mut text: Vec<u8> = self.header();
        let mut j: usize = 0;
        while j < rows.len()
            invariant
                j <= rows@.len(),
                text@ == header_text(self.image_width as nat, self.image_height as nat)
                    + Camera::rows_text(rows@, j as nat),
            decreases rows@.len() - j,
        {
            let row = &rows[j];
            let ghost before = text@;
            let mut i: usize = 0;
            while i < row.len()
                invariant
                    i <= row@.len(),
                    text@ == before + Camera::row_text(row@, i as nat),
                decreases row@.len() - i,
            {
                let mut line: Vec<u8> = write_color(&row[i].0, &row[i].1);
                text.append(&mut line);
                i += 1;
            }
            j += 1;
        }
        text
    }
}

/// The first `n` pixels of a row are `n` lines.
pub proof fn lemma_row_has_a_line_for_each_pixel(row: Seq<(Color, Color)>, n: nat)
    ensures
        line_feeds(Camera::row_text(row, n)) == n,
    decreases n,
{
    if n > 0 {
        let pixel = row[n - 1];
        lemma_row_has_a_line_for_each_pixel(row, (n - 1) as nat);
        lemma_pixel_is_one_line(
            channel(pixel.0.x, pixel.1.x) as nat,
            channel(pixel.0.y, pixel.1.y) as nat,
            channel(pixel.0.z, pixel.1.z) as nat,
        );
        lemma_line_feeds_add(
            Camera::row_text(row, (n - 1) as nat),
            pixel_text(
                channel(pixel.0.x, pixel.1.x) as nat,
                channel(pixel.0.y, pixel.1.y) as nat,
                channel(pixel.0.z, pixel.1.z) as nat,
            ),
        );
    }
}

/// The first `n` rows of an image are a line for each of their pixels.
pub proof fn lemma_rows_have_a_line_for_each_pixel(
    camera: Camera,
    rows: Seq<Vec<(Color, Color)>>,
    n: nat,
)
    requires
        camera.frames(rows),
        n <= camera.image_height,
    ensures
        line_feeds(Camera::rows_text(rows, n)) == n * camera.image_width,
    decreases n,
{
    if n > 0 {
        let m = (n - 1) as nat;
        lemma_rows_have_a_line_for_each_pixel(camera, rows, m);
        lemma_row_has_a_line_for_each_pixel(rows[n - 1]@, rows[n - 1]@.len());
        lemma_line_feeds_add(
            Camera::rows_text(rows, m),
            Camera::row_text(rows[n - 1]@, rows[n - 1]@.len()),
        );
        assert(n * camera.image_width == m * camera.image_width + camera.image_width)
            by (nonlinear_arith)
            requires
                n == m + 1,
        ;
    } else {
        assert(0 * camera.image_width == 0);
    }
}

/// The text of an image is the three lines of its header and a line for
/// each of its pixels.
pub proof fn lemma_image_has_a_line_for_each_pixel(camera: Camera, rows: Seq<Vec<(Color, Color)>>)
    requires
        camera.frames(rows),
    ensures
        line_feeds(
            header_text(camera.image_width as nat, camera.image_height as nat) + Camera::rows_text(
                rows,
                camera.image_height as nat,
            ),
        ) == 3 + camera.image_width * camera.image_height,
{
    lemma_header_is_three_lines(camera.image_width as nat, camera.image_height as nat);
    lemma_rows_have_a_line_for_each_pixel(camera, rows, camera.image_height as nat);
    lemma_line_feeds_add(
        header_text(camera.image_width as nat, camera.image_height as nat),
        Camera::rows_text(rows, camera.image_height as nat),
    );
    assert(camera.image_height * camera.image_width == camera.image_width * camera.image_height)
        by (nonlinear_arith);
}

/// A path casts no more rays than it has bounces, and it has ended, in the
/// sky or without light, unless the casts ran out first.
pub proof fn lemma_path_is_bounded(depth: u32, casts: Seq<Outcome>)
    ensures
        Camera::path(Camera::spec_begin(depth), casts).1 <= depth,
        Camera::path(Camera::spec_begin(depth), casts).1 <= casts.len(),
        Camera::path(Camera::spec_begin(depth), casts).0 is Cast ==> Camera::path(
            Camera::spec_begin(depth),
            casts,
        ).1 == casts.len(),
    decreases casts.len(),
{
    if depth > 0 && casts.len() > 0 {
        match casts[0] {
            Outcome::Scattered => lemma_path_is_bounded((depth - 1) as u32, casts.skip(1)),
            _ => {
                assert(Camera::path(Camera::spec_ray_color(depth, casts[0]), casts.skip(1)).1 == 0);
            },
        }
    }
}

/// A path whose every ray is scattered ends without light when its bounces
/// are used up, after as many casts as it had bounces.
pub proof fn lemma_exhausted_path_is_black(depth: u32, casts: Seq<Outcome>)
    requires
        casts.len() >= depth,
        forall|i: int| 0 <= i < casts.len() ==> #[trigger] casts[i] is Scattered,
    ensures
        Camera::path(Camera::spec_begin(depth), casts) == (Trace::Black, depth as nat),
    decreases depth,
{
    if depth > 0 {
        let rest = casts.skip(1);
        assert forall|i: int| 0 <= i < rest.len() implies #[trigger] rest[i] is Scattered by {
            assert(rest[i] == casts[i + 1]);
        }
        lemma_exhausted_path_is_black((depth - 1) as u32, rest);
    }
}

/// A ray that no member of the world reports a hit for is reported none by
/// the world, and it ends in the sky, as long as a bounce is left.
pub proof fn lemma_miss_everywhere_is_sky<'a, T: Hittable>(
    world: HittableList<'a, T>,
    probes: Seq<T::Probe>,
    ray_t: Interval,
    depth: u32,
)
    requires
        world.probed(probes),
        forall|k: int|
            0 <= k < probes.len() ==> (#[trigger] world.objects@[k]).hit_spec(&probes[k], ray_t)
                is None,
        depth > 0,
    ensures
        world.nearest(probes, ray_t, probes.len()) is None,
        Camera::spec_ray_color(depth, Outcome::Miss) == Trace::Sky,
{
    world.lemma_hit_iff_a_member_hits(probes, ray_t, probes.len());
}

} // verus!
