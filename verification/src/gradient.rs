//! The layout of a gradient: how many samples each segment between two
//! control points gets, and which control points and step each sample is
//! blended from.

use crate::codec::Color;
use vstd::arithmetic::div_mod::{lemma_fundamental_div_mod, lemma_fundamental_div_mod_converse};
use vstd::arithmetic::mul::lemma_mul_is_commutative;
use vstd::prelude::*;
use vstd::string::StringExecFns;

verus! {

/// Why a gradient cannot be made from a request.
#[derive(Clone, Copy, Debug, PartialEq, Eq, Structural)]
pub enum GradientError {
    /// The requested length does not exceed the number of colours.
    LengthTooShort,
    /// Fewer than two colours were given, so there is no segment to fill.
    TooFewColors,
}

impl GradientError {
    /// The text shown to the user for this error.
    pub open spec fn message_text(self) -> Seq<char> {
        match self {
            GradientError::LengthTooShort => "Gradient length must be greater than the color amount"@,
            GradientError::TooFewColors => "At least two colors are needed for a gradient"@,
        }
    }

    /// The text shown to the user for this error.
    pub fn message(&self) -> (result: String)
        ensures
            result@ == self.message_text(),
    {
        match self {
            GradientError::LengthTooShort => String::from_str(
                "Gradient length must be greater than the color amount",
            ),
            GradientError::TooFewColors => String::from_str(
                "At least two colors are needed for a gradient",
            ),
        }
    }
}

/// The verdict on a request for `length` samples across `count` colours.
/// The length is judged first.
pub open spec fn request_verdict(length: int, count: int) -> Result<(), GradientError> {
    if length <= count {
        Err(GradientError::LengthTooShort)
    } else if count < 2 {
        Err(GradientError::TooFewColors)
    } else {
        Ok(())
    }
}

/// Checks a request before any colour is read: the length must exceed the
/// number of colours, and there must be at least two colours.
pub fn validate_request(length: usize, count: usize) -> (result: Result<(), GradientError>)
    ensures
        result == request_verdict(length as int, count as int),
{
    if length <= count {
        Err(GradientError::LengthTooShort)
    } else if count < 2 {
        Err(GradientError::TooFewColors)
    } else {
        Ok(())
    }
}

/// The number of samples taken from each segment when `n` samples are asked
/// for across `count` control points: `n - 1` shared out evenly, rounded
/// down.
pub open spec fn samples_per_segment(count: int, n: int) -> int
    recommends
        count >= 2,
        n >= 1,
{
    (n - 1) / (count - 1)
}

/// The number of samples in the gradient: every segment's share, and the
/// last control point.
pub open spec fn gradient_len(count: int, n: int) -> int
    recommends
        count >= 2,
        n >= 1,
{
    (count - 1) * samples_per_segment(count, n) + 1
}

/// The gradient holds its last control point at least and is never longer
/// than asked for: it falls short of `n` by the remainder of sharing `n - 1`
/// samples among the segments, and reaches `n` only when nothing remains.
pub proof fn lemma_gradient_len(count: int, n: int)
    requires
        count >= 2,
        n >= 1,
    ensures
        gradient_len(count, n) == (count - 1) * ((n - 1) / (count - 1)) + 1,
        gradient_len(count, n) == n - (n - 1) % (count - 1),
        1 <= gradient_len(count, n) <= n,
        gradient_len(count, n) == n <==> (n - 1) % (count - 1) == 0,
        samples_per_segment(count, n) >= 0,
        n > count ==> samples_per_segment(count, n) >= 1,
{
    lemma_fundamental_div_mod(n - 1, count - 1);
    let per = (n - 1) / (count - 1);
    if per < 0 {
        assert((count - 1) * per <= -(count - 1)) by (nonlinear_arith)
            requires
                per <= -1,
                count - 1 >= 1,
        ;
    }
    if n > count && per < 1 {
        assert((count - 1) * per <= 0) by (nonlinear_arith)
            requires
                per <= 0,
                count - 1 >= 1,
        ;
    }
}

/// Whether `out` is a result of `mix` on one channel, from `from` to `to`
/// at `step` of `steps`.
pub open spec fn is_mix<T, F: Fn(T, T, usize, usize) -> T>(
    mix: F,
    from: T,
    to: T,
    step: int,
    steps: int,
    out: T,
) -> bool {
    call_ensures(mix, (from, to, step as usize, steps as usize), out)
}

/// Whether `sample` is a result of blending `from` into `to` at `step` of
/// `steps`, channel by channel.
pub open spec fn is_blend<T, F: Fn(T, T, usize, usize) -> T>(
    mix: F,
    from: Color<T>,
    to: Color<T>,
    step: int,
    steps: int,
    sample: Color<T>,
) -> bool {
    &&& is_mix(mix, from.0, to.0, step, steps, sample.0)
    &&& is_mix(mix, from.1, to.1, step, steps, sample.1)
    &&& is_mix(mix, from.2, to.2, step, steps, sample.2)
}

/// Whether `mix` may be called to blend `from` into `to` at `step` of
/// `steps`, on each of the three channels.
pub open spec fn can_blend<T, F: Fn(T, T, usize, usize) -> T>(
    mix: F,
    from: Color<T>,
    to: Color<T>,
    step: int,
    steps: int,
) -> bool {
    &&& call_requires(mix, (from.0, to.0, step as usize, steps as usize))
    &&& call_requires(mix, (from.1, to.1, step as usize, steps as usize))
    &&& call_requires(mix, (from.2, to.2, step as usize, steps as usize))
}

/// Whether `mix` may be called at `step` of `steps` within the segment that
/// starts at control point `segment`.
pub open spec fn can_blend_segment<T, F: Fn(T, T, usize, usize) -> T>(
    mix: F,
    colors: Seq<Color<T>>,
    segment: int,
    step: int,
    steps: int,
) -> bool {
    can_blend(mix, colors[segment], colors[segment + 1], step, steps)
}

/// Whether `mix` may be called for every sample of the gradient of `n`
/// requested samples across `colors`: on the channels of each two
/// neighbouring control points, at each step below the share of a segment.
/// Nothing is asked of `mix` on other values.
pub open spec fn can_blend_gradient<T, F: Fn(T, T, usize, usize) -> T>(
    mix: F,
    colors: Seq<Color<T>>,
    n: int,
) -> bool {
    let per = samples_per_segment(colors.len() as int, n);
    forall|segment: int, step: int|
        0 <= segment < colors.len() - 1 && 0 <= step < per ==> #[trigger] can_blend_segment(
            mix,
            colors,
            segment,
            step,
            per,
        )
}

/// Whether blending `from` into `to` at step zero of `steps` can only give
/// `from` back, on each of the three channels.
pub open spec fn keeps_origin<T, F: Fn(T, T, usize, usize) -> T>(
    mix: F,
    from: Color<T>,
    to: Color<T>,
    steps: int,
) -> bool {
    &&& forall|out: T| #[trigger] is_mix(mix, from.0, to.0, 0, steps, out) ==> out == from.0
    &&& forall|out: T| #[trigger] is_mix(mix, from.1, to.1, 0, steps, out) ==> out == from.1
    &&& forall|out: T| #[trigger] is_mix(mix, from.2, to.2, 0, steps, out) ==> out == from.2
}

/// Whether `samples` is the gradient of `n` requested samples across
/// `colors`: segment after segment, each with its share of blends in rising
/// steps that start at step zero, and the last control point at the end.
pub open spec fn is_gradient<T, F: Fn(T, T, usize, usize) -> T>(
    mix: F,
    colors: Seq<Color<T>>,
    n: int,
    samples: Seq<Color<T>>,
) -> bool {
    let per = samples_per_segment(colors.len() as int, n);
    &&& samples.len() == gradient_len(colors.len() as int, n)
    &&& forall|k: int|
        0 <= k < samples.len() - 1 ==> is_blend(
            mix,
            colors[k / per],
            colors[k / per + 1],
            k % per,
            per,
            #[trigger] samples[k],
        )
    &&& samples.last() == colors.last()
}

/// Spreads a gradient across the control points `colors`.
///
/// Every segment between two neighbouring control points contributes
/// `(n - 1) / (colors.len() - 1)` samples; sample `j` of a segment is
/// `mix(from, to, j, per_segment)` on each of the three channels. The last
/// control point closes the gradient unchanged. When `n - 1` is not a
/// multiple of the number of segments the result is shorter than `n`.
///
/// `mix` is called on the channels of neighbouring control points only, at
/// steps below the share of a segment. Where it can only give its origin
/// back at step zero, the gradient begins with the first control point.
pub fn lerp_hsl<T: Copy, F: Fn(T, T, usize, usize) -> T>(
    colors: &[Color<T>],
    n: usize,
    mix: F,
) -> (result: Vec<Color<T>>)
    requires
        colors@.len() >= 2,
        n >= 1,
        can_blend_gradient(mix, colors@, n as int),
    ensures
        is_gradient(mix, colors@, n as int, result@),
        result@.len() == (colors@.len() - 1) * ((n - 1) / (colors@.len() - 1)) + 1,
        1 <= result@.len() <= n,
        result@.last() == colors@.last(),
        samples_per_segment(colors@.len() as int, n as int) > 0 && keeps_origin(
            mix,
            colors@[0],
            colors@[1],
            samples_per_segment(colors@.len() as int, n as int),
        ) ==> result@.first() == colors@.first(),
{
    proof {
        lemma_gradient_len(colors@.len() as int, n as int);
    }
    let mut result: Vec<Color<T>> = Vec::new();
    let segments: usize = colors.len() - 1;
    let per: usize = (n - 1) / segments;
    let mut i: usize = 0;
    while i < segments
        invariant
            segments == colors@.len() - 1,
            per == samples_per_segment(colors@.len() as int, n as int),
            i <= segments,
            result@.len() == i * per,
            can_blend_gradient(mix, colors@, n as int),
            forall|k: int|
                0 <= k < result@.len() ==> is_blend(
                    mix,
                    colors@[k / (per as int)],
                    colors@[k / (per as int) + 1],
                    k % (per as int),
                    per as int,
                    #[trigger] result@[k],
                ),
        decreases segments - i,
    {
        let (h1, s1, l1) = colors[i];
        let (h2, s2, l2) = colors[i + 1];
        let mut j: usize = 0;
        while j < per
            invariant
                i < segments,
                segments == colors@.len() - 1,
                j <= per,
                result@.len() == i * per + j,
                (h1, s1, l1) == colors@[i as int],
                (h2, s2, l2) == colors@[i + 1],
                per == samples_per_segment(colors@.len() as int, n as int),
                can_blend_gradient(mix, colors@, n as int),
                forall|k: int|
                    0 <= k < result@.len() ==> is_blend(
                        mix,
                        colors@[k / (per as int)],
                        colors@[k / (per as int) + 1],
                        k % (per as int),
                        per as int,
                        #[trigger] result@[k],
                    ),
            decreases per - j,
        {
            assert(can_blend_segment(mix, colors@, i as int, j as int, per as int));
            let h = mix(h1, h2, j, per);
            let s = mix(s1, s2, j, per);
            let l = mix(l1, l2, j, per);
            proof {
                lemma_fundamental_div_mod_converse(
                    i * per + j,
                    per as int,
                    i as int,
                    j as int,
                );
            }
            result.push((h, s, l));
            j += 1;
        }
        proof {
            assert((i + 1) * per == i * per + per) by (nonlinear_arith);
        }
        i += 1;
    }
    proof {
        lemma_mul_is_commutative(segments as int, per as int);
    }
    result.push(colors[colors.len() - 1]);
    proof {
        lemma_gradient_endpoints(mix, colors@, n as int, result@);
    }
    result
}

/// Every segment of a gradient opens with the blend at step zero of its two
/// control points. Where that blend can only give its origin back, the
/// control point that opens the segment is itself a sample, at the head of
/// the segment.
pub proof fn lemma_segment_heads<T, F: Fn(T, T, usize, usize) -> T>(
    mix: F,
    colors: Seq<Color<T>>,
    n: int,
    samples: Seq<Color<T>>,
    segment: int,
)
    requires
        colors.len() >= 2,
        n >= 1,
        is_gradient(mix, colors, n, samples),
        0 <= segment < colors.len() - 1,
        samples_per_segment(colors.len() as int, n) > 0,
    ensures
        0 <= segment * samples_per_segment(colors.len() as int, n) < samples.len() - 1,
        is_blend(
            mix,
            colors[segment],
            colors[segment + 1],
            0,
            samples_per_segment(colors.len() as int, n),
            samples[segment * samples_per_segment(colors.len() as int, n)],
        ),
        keeps_origin(
            mix,
            colors[segment],
            colors[segment + 1],
            samples_per_segment(colors.len() as int, n),
        ) ==> samples[segment * samples_per_segment(colors.len() as int, n)] == colors[segment],
{
    let per = samples_per_segment(colors.len() as int, n);
    let at = segment * per;
    assert(0 <= at && at + per <= (colors.len() - 1) * per) by (nonlinear_arith)
        requires
            at == segment * per,
            0 <= segment,
            segment + 1 <= colors.len() - 1,
            per > 0,
    ;
    lemma_fundamental_div_mod_converse(at, per, segment, 0);
    assert(is_blend(mix, colors[at / per], colors[at / per + 1], at % per, per, samples[at]));
}

/// The gradient ends with the last control point, always. When every
/// segment gets at least one sample and the blend of the first two control
/// points can only give its origin back at step zero, the gradient begins
/// with the first control point; when no segment gets a sample, the last
/// control point is all there is.
pub proof fn lemma_gradient_endpoints<T, F: Fn(T, T, usize, usize) -> T>(
    mix: F,
    colors: Seq<Color<T>>,
    n: int,
    samples: Seq<Color<T>>,
)
    requires
        colors.len() >= 2,
        n >= 1,
        is_gradient(mix, colors, n, samples),
    ensures
        samples.len() >= 1,
        samples.last() == colors.last(),
        samples_per_segment(colors.len() as int, n) > 0 && keeps_origin(
            mix,
            colors[0],
            colors[1],
            samples_per_segment(colors.len() as int, n),
        ) ==> samples.first() == colors.first(),
        samples_per_segment(colors.len() as int, n) == 0 ==> samples =~= seq![colors.last()],
{
    lemma_gradient_len(colors.len() as int, n);
    if samples_per_segment(colors.len() as int, n) > 0 {
        lemma_segment_heads(mix, colors, n, samples, 0);
    }
}

} // verus!
