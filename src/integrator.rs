use vstd::prelude::*;

verus! {

/// What became of a path at one bounce.
#[derive(Clone, Copy, Debug, PartialEq, Eq, Structural)]
pub enum BounceOutcome {
    /// The ray left the scene; the background has been added.
    Escaped,
    /// The ray hit a surface and a new direction was sampled.
    Scattered,
    /// Russian roulette ended the path after scattering.
    Absorbed,
}

/// The path-tracing radiance estimator's settings: at most `max_bounce`
/// bounces per path, with Russian roulette once the bounce index exceeds
/// `russian_roulette`.
///
/// The estimator's arithmetic runs on the renderer's color type; this type
/// holds the decisions of its bounce loop: where a path starts, when the
/// roulette is drawn, and which bounce, if any, comes next.
pub struct PathIntegrator {
    max_bounce: usize,
    russian_roulette: usize,
}

impl PathIntegrator {
    pub closed spec fn spec_max_bounce(&self) -> nat {
        self.max_bounce as nat
    }

    pub closed spec fn spec_russian_roulette(&self) -> nat {
        self.russian_roulette as nat
    }

    /// The bounce that follows `bounce` after `outcome`: only a scattered
    /// path goes on, and never past `max_bounce` bounces.
    pub open spec fn spec_next_bounce(&self, bounce: nat, outcome: BounceOutcome) -> Option<usize> {
        match outcome {
            BounceOutcome::Scattered => if bounce + 1 < self.spec_max_bounce() {
                Some((bounce + 1) as usize)
            } else {
                None
            },
            _ => None,
        }
    }

    pub fn new(max_bounce: usize, russian_roulette: usize) -> (r: PathIntegrator)
        ensures
            r.spec_max_bounce() == max_bounce,
            r.spec_russian_roulette() == russian_roulette,
    {
        PathIntegrator { max_bounce, russian_roulette }
    }

    pub fn max_bounce(&self) -> (r: usize)
        ensures
            r == self.spec_max_bounce(),
    {
        self.max_bounce
    }

    pub fn russian_roulette(&self) -> (r: usize)
        ensures
            r == self.spec_russian_roulette(),
    {
        self.russian_roulette
    }

    /// The first bounce of a path: bounce `0`, unless no bounce is allowed.
    pub fn first_bounce(&self) -> (r: Option<usize>)
        ensures
            r == (if self.spec_max_bounce() > 0 { Some(0usize) } else { None }),
    {
        if self.max_bounce > 0 {
            Some(0)
        } else {
            None
        }
    }

    /// Whether Russian roulette is played after scattering at `bounce`: only
    /// once the bounce index exceeds `russian_roulette`.
    pub fn roulette_applies(&self, bounce: usize) -> (r: bool)
        ensures
            r == (bounce > self.spec_russian_roulette()),
    {
        bounce > self.russian_roulette
    }

    /// The bounce that follows `bounce`, or `None` when the path ends.
    pub fn next_bounce(&self, bounce: usize, outcome: BounceOutcome) -> (r: Option<usize>)
        requires
            bounce < self.spec_max_bounce(),
        ensures
            r == self.spec_next_bounce(bounce as nat, outcome),
            r matches Some(n) ==> n == bounce + 1 && n < self.spec_max_bounce(),
    {
        match outcome {
            BounceOutcome::Scattered => if bounce + 1 < self.max_bounce {
                Some(bounce + 1)
            } else {
                None
            },
            _ => None,
        }
    }
}

} // verus!
