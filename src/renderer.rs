use crate::ppm::{add_pixels, black_pixels, can_add_pixels, Image, ImageSize};
use crate::types::{black_is_neutral, Pixel};
use vstd::arithmetic::div_mod::lemma_fundamental_div_mod;
use vstd::prelude::*;

verus! {

/// Sum of a sequence of sample counts.
pub open spec fn total(counts: Seq<usize>) -> int
    decreases counts.len(),
{
    if counts.len() == 0 {
        0
    } else {
        total(counts.drop_last()) + counts.last()
    }
}

/// The number of samples that worker `i` of `threads` renders: an equal
/// share each, and the remainder of the division on top for the last one.
pub open spec fn share(samples: nat, threads: nat, i: nat) -> nat {
    if i + 1 == threads {
        samples / threads + samples % threads
    } else {
        samples / threads
    }
}

/// Splits `samples` among `threads` workers: each worker gets
/// `samples / threads`, and the last one also gets the remainder, so that
/// the shares add up to `samples` exactly.
pub fn worker_shares(samples: usize, threads: usize) -> (r: Vec<usize>)
    requires
        threads >= 1,
    ensures
        r@.len() == threads,
        forall|i: int| 0 <= i < threads ==> r@[i] == share(samples as nat, threads as nat, i as nat),
        total(r@) == samples,
{
    let per_thread = samples / threads;
    let rest = samples % threads;
    proof {
        lemma_fundamental_div_mod(samples as int, threads as int);
        assert(per_thread * (threads - 1) + per_thread + rest == samples) by (nonlinear_arith)
            requires
                samples == threads * per_thread + rest,
        ;
    }
    let mut shares: Vec<usize> = Vec::with_capacity(threads);
    let mut i: usize = 0;
    while i < threads
        invariant
            i <= threads,
            threads >= 1,
            per_thread == samples as nat / threads as nat,
            rest == samples as nat % threads as nat,
            per_thread * (threads - 1) + per_thread + rest == samples,
            shares@.len() == i,
            forall|j: int| 0 <= j < i ==> shares@[j] == share(samples as nat, threads as nat, j as nat),
            i < threads ==> total(shares@) == per_thread * i,
            i == threads ==> total(shares@) == samples,
        decreases threads - i,
    {
        proof {
            assert(per_thread * i <= per_thread * (threads - 1)) by (nonlinear_arith)
                requires
                    i < threads,
            ;
        }
        let count = if i == threads - 1 {
            per_thread + rest
        } else {
            per_thread
        };
        let ghost before = shares@;
        shares.push(count);
        proof {
            assert(shares@.drop_last() =~= before);
            assert(per_thread * (i + 1) == per_thread * i + per_thread) by (nonlinear_arith);
        }
        i = i + 1;
    }
    shares
}

/// Relies on num_cpus::get: the number of logical CPUs this process may
/// use, which is at least one.
#[verifier::external_body]
fn available_threads() -> (r: usize)
    ensures
        r >= 1,
{
    num_cpus::get()
}

/// Splits `samples` among one worker per available hardware thread, as
/// `worker_shares` does.
pub fn sample_shares(samples: usize) -> (r: Vec<usize>)
    ensures
        r@.len() >= 1,
        forall|i: int|
            0 <= i < r@.len() ==> r@[i] == share(samples as nat, r@.len(), i as nat),
        total(r@) == samples,
{
    let threads = available_threads();
    worker_shares(samples, threads)
}

/// The running sum of the samples of one render. Each sample arrives
/// already scaled by the inverse of the sample count, so the sum is their
/// average.
pub struct SampleSum<T: Pixel> {
    sum: Image<T>,
    has_image: bool,
}

impl<T: Pixel> SampleSum<T> {
    /// Well-formedness: until a sample is added the sum is all black, and
    /// black is neutral.
    pub closed spec fn wf(&self) -> bool {
        &&& self.sum.wf()
        &&& T::obeys_pixel_spec() && !self.has_image ==> {
            &&& self.sum.pixels() == black_pixels::<T>(self.sum.pixels().len())
            &&& black_is_neutral::<T>()
        }
    }

    /// The sum so far.
    pub closed spec fn image(&self) -> Image<T> {
        self.sum
    }

    /// Whether any sample was added.
    pub closed spec fn has_image(&self) -> bool {
        self.has_image
    }

    /// An all-black sum of the given shape, with no sample in it.
    pub fn new(width: ImageSize, height: ImageSize) -> (r: Self)
        requires
            width * height <= u32::MAX,
        ensures
            r.wf(),
            r.image().width_spec() == width,
            r.image().height_spec() == height,
            r.image().pixels().len() == width * height,
            T::obeys_pixel_spec() ==> r.image().pixels() == black_pixels::<T>(
                (width * height) as nat,
            ),
            !r.has_image(),
    {
        SampleSum { sum: Image::new(width, height), has_image: false }
    }

    /// Adds one sample, which must have the shape of the sum.
    pub fn add_sample(&mut self, sample: Image<T>)
        requires
            old(self).wf(),
            sample.wf(),
            sample.width_spec() == old(self).image().width_spec(),
            sample.height_spec() == old(self).image().height_spec(),
            T::obeys_pixel_spec() && old(self).has_image() ==> can_add_pixels(
                old(self).image().pixels(),
                sample.pixels(),
            ),
        ensures
            final(self).wf(),
            final(self).image().width_spec() == old(self).image().width_spec(),
            final(self).image().height_spec() == old(self).image().height_spec(),
            final(self).image().pixels().len() == old(self).image().pixels().len(),
            T::obeys_pixel_spec() ==> final(self).image().pixels() == add_pixels(
                old(self).image().pixels(),
                sample.pixels(),
            ),
            final(self).has_image(),
            T::obeys_pixel_spec() && !old(self).has_image() ==> final(self).image().pixels()
                == sample.pixels(),
    {
        proof {
            self.sum.lemma_shape();
            sample.lemma_shape();
            if T::obeys_pixel_spec() && !self.has_image {
                lemma_add_to_black(sample.pixels());
            }
        }
        self.sum.add_assign(sample);
        self.has_image = true;
    }

    /// The final image, or `None` when no sample was ever added: a render
    /// that produced nothing has no result, not an all-black one.
    pub fn finish(self) -> (r: Option<Image<T>>)
        requires
            self.wf(),
        ensures
            r is None <==> !self.has_image(),
            r is Some ==> r->Some_0 == self.image(),
    {
        if self.has_image {
            Some(self.sum)
        } else {
            None
        }
    }
}

/// Adding pixels into an all-black image of their count gives them back.
proof fn lemma_add_to_black<T: Pixel>(pixels: Seq<T>)
    requires
        black_is_neutral::<T>(),
    ensures
        can_add_pixels(black_pixels::<T>(pixels.len()), pixels),
        add_pixels(black_pixels::<T>(pixels.len()), pixels) == pixels,
{
    let black = black_pixels::<T>(pixels.len());
    assert forall|i: int| 0 <= i < pixels.len() implies #[trigger] black[i].can_add(pixels[i]) by {
        assert(T::black_spec().can_add(pixels[i]));
    }
    assert forall|i: int| 0 <= i < pixels.len() implies #[trigger] add_pixels(black, pixels)[i]
        == pixels[i] by {
        assert(T::black_spec().sum(pixels[i]) == pixels[i]);
    }
    assert(add_pixels(black, pixels) =~= pixels);
}

} // verus!
