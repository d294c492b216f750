//! The chain of render stages and the resolution at which each one works.
//!
//! A frame runs the stages in the order of the chain. Each stage reads what
//! the stage before it wrote; the mix stage reads the output of the sky stage
//! as well.

use vstd::prelude::*;

verus! {

/// Which way a bloom stage resamples.
#[derive(Clone, Copy, Debug, PartialEq, Eq, Structural)]
pub enum BloomDirection {
    Up,
    Down,
}

/// What a stage of the chain does.
#[derive(Clone, Copy, Debug, PartialEq, Eq, Structural)]
pub enum StageKind {
    /// Integrates light paths, refining the output of the stage before it.
    Ray,
    /// Composites the sky behind the last ray stage's output.
    Sky,
    /// Resamples for bloom, at half or twice the resolution before it.
    Bloom(BloomDirection),
    /// Blends the sky stage's output with the last bloom stage's output.
    Mix,
    /// Maps tones.
    Hdr,
    /// Smooths edges.
    Fxaa,
    /// Fits the image onto the presentation surface.
    Screen,
}

/// Width and height of a stage's output.
#[derive(Clone, Copy, Debug, PartialEq, Eq, Structural)]
pub struct Resolution {
    pub width: u32,
    pub height: u32,
}

/// One stage of the chain.
///
/// `input` and `second_input` are positions in the chain: the stages whose
/// output this stage reads. The first stage reads no stage's output.
#[derive(Clone, Copy, Debug, PartialEq, Eq, Structural)]
pub struct Stage {
    pub kind: StageKind,
    pub resolution: Resolution,
    pub input: Option<usize>,
    pub second_input: Option<usize>,
}

/// Why a chain could not be laid out.
#[derive(Clone, Copy, Debug, PartialEq, Eq, Structural)]
pub enum ChainError {
    /// The chain was asked to hold no ray stage.
    NoRayStage,
    /// The chain was asked to hold no bloom stage.
    NoBloomStage,
    /// Some ray stage's width or height is not a 32-bit size.
    ResolutionOutOfRange,
}

/// The stages of a frame, in the order in which they run.
#[derive(Clone, Debug)]
pub struct PipelineChain {
    pub stages: Vec<Stage>,
    pub ray_stages: usize,
    pub bloom_stages: usize,
}

impl StageKind {
    /// The stage runs in the compute pass that opens a frame. The others run
    /// after it, each in a render pass of its own.
    pub open spec fn in_compute_pass(self) -> bool {
        self == StageKind::Ray || self == StageKind::Sky
    }

    /// Tells whether the stage runs in the compute pass.
    pub fn is_compute(self) -> (compute: bool)
        ensures
            compute == self.in_compute_pass(),
    {
        match self {
            StageKind::Ray => true,
            StageKind::Sky => true,
            _ => false,
        }
    }
}

impl PipelineChain {
    /// The order in which a frame runs the stages: each one once, in the
    /// order of the chain.
    pub fn execution_order(&self) -> (order: Vec<usize>)
        ensures
            order@.len() == self.stages@.len(),
            forall|i: int| 0 <= i < order@.len() ==> #[trigger] order@[i] == i,
    {
        let mut order: Vec<usize> = Vec::new();
        let mut i: usize = 0;
        while i < self.stages.len()
            invariant
                i <= self.stages.len(),
                order@.len() == i,
                forall|k: int| 0 <= k < i ==> #[trigger] order@[k] == k,
            decreases self.stages.len() - i,
        {
            order.push(i);
            i += 1;
        }
        order
    }
}

/// One step of growth on one axis.
pub open spec fn grown(size: int, multiplier: int) -> int {
    size * multiplier - (multiplier - 1)
}

/// `steps` steps of growth on one axis.
pub open spec fn grown_times(size: int, multiplier: int, steps: nat) -> int
    decreases steps,
{
    if steps == 0 {
        size
    } else {
        grown(grown_times(size, multiplier, (steps - 1) as nat), multiplier)
    }
}

/// `size` halved `steps` times, each time rounding down.
pub open spec fn halved_times(size: int, steps: nat) -> int
    decreases steps,
{
    if steps == 0 {
        size
    } else {
        halved_times(size, (steps - 1) as nat) / 2
    }
}

/// The size on one axis of bloom stage `i` of `2 * count`, where the stage
/// before the first has size `size`: the first `count` stages halve, the
/// others double back, the last one reaching `size` again.
pub open spec fn bloom_size(size: int, count: nat, i: nat) -> int {
    if i < count {
        halved_times(size, i + 1)
    } else {
        halved_times(size, (2 * count - 1 - i) as nat)
    }
}

/// `v` is a width or height that 32 bits can hold.
pub open spec fn is_size(v: int) -> bool {
    0 <= v <= u32::MAX
}

/// Every ray stage before stage `upto` has a 32-bit width and height.
pub open spec fn ray_sizes_fit(base: Resolution, multiplier: u32, upto: nat) -> bool {
    forall|i: nat|
        i < upto ==> is_size(#[trigger] grown_times(base.width as int, multiplier as int, i))
            && is_size(grown_times(base.height as int, multiplier as int, i))
}

/// The resolution of ray stage `i`.
pub open spec fn ray_resolution(base: Resolution, multiplier: u32, i: nat) -> Resolution {
    Resolution {
        width: grown_times(base.width as int, multiplier as int, i) as u32,
        height: grown_times(base.height as int, multiplier as int, i) as u32,
    }
}

/// The resolution of bloom stage `i` behind a sky stage of resolution `sky`.
pub open spec fn bloom_resolution(sky: Resolution, count: nat, i: nat) -> Resolution {
    Resolution {
        width: bloom_size(sky.width as int, count, i) as u32,
        height: bloom_size(sky.height as int, count, i) as u32,
    }
}

/// How many stages a chain of `rays` ray stages and `2 * blooms` bloom stages
/// holds.
pub open spec fn chain_len(rays: nat, blooms: nat) -> nat {
    rays + 2 * blooms + 5
}

/// Stage `i` of the chain laid out from `base` with `rays` ray stages, each
/// grown by `multiplier` from the one before, and `2 * blooms` bloom stages.
pub open spec fn stage_at(
    base: Resolution,
    multiplier: u32,
    rays: nat,
    blooms: nat,
    i: nat,
) -> Stage {
    let full = ray_resolution(base, multiplier, (rays - 1) as nat);
    let before = if i == 0 {
        None
    } else {
        Some((i - 1) as usize)
    };
    if i < rays {
        Stage {
            kind: StageKind::Ray,
            resolution: ray_resolution(base, multiplier, i),
            input: before,
            second_input: None,
        }
    } else if i == rays {
        Stage { kind: StageKind::Sky, resolution: full, input: before, second_input: None }
    } else if i <= rays + 2 * blooms {
        let b = (i - rays - 1) as nat;
        Stage {
            kind: StageKind::Bloom(
                if b < blooms {
                    BloomDirection::Down
                } else {
                    BloomDirection::Up
                },
            ),
            resolution: bloom_resolution(full, blooms, b),
            input: before,
            second_input: None,
        }
    } else if i == rays + 2 * blooms + 1 {
        Stage {
            kind: StageKind::Mix,
            resolution: full,
            input: Some(rays as usize),
            second_input: before,
        }
    } else if i == rays + 2 * blooms + 2 {
        Stage { kind: StageKind::Hdr, resolution: full, input: before, second_input: None }
    } else if i == rays + 2 * blooms + 3 {
        Stage { kind: StageKind::Fxaa, resolution: full, input: before, second_input: None }
    } else {
        Stage { kind: StageKind::Screen, resolution: full, input: before, second_input: None }
    }
}

/// Grows one axis by one step, if the result is a 32-bit size.
pub fn grow(size: u32, multiplier: u32) -> (next: Option<u32>)
    ensures
        is_size(grown(size as int, multiplier as int)) ==> next == Some(
            grown(size as int, multiplier as int) as u32,
        ),
        !is_size(grown(size as int, multiplier as int)) ==> next.is_none(),
{
    assert(0 <= (size as int) * (multiplier as int) <= 0xFFFF_FFFF * 0xFFFF_FFFF) by (nonlinear_arith)
        requires
            0 <= size <= 0xFFFF_FFFF,
            0 <= multiplier <= 0xFFFF_FFFF,
    ;
    let product: i128 = (size as i128) * (multiplier as i128);
    let next: i128 = product - (multiplier as i128 - 1);
    if 0 <= next && next <= u32::MAX as i128 {
        Some(next as u32)
    } else {
        None
    }
}

/// The number of groups of eight that cover `size`.
pub open spec fn groups_of_eight(size: int) -> int {
    (size + 7) / 8
}

/// Counts the work groups, eight wide, that a compute stage needs to cover
/// `size` on one axis.
pub fn workgroup_count(size: u32) -> (count: u32)
    ensures
        count == groups_of_eight(size as int),
{
    if size % 8 == 0 {
        size / 8
    } else {
        size / 8 + 1
    }
}

/// Halves `size` `steps` times, each time rounding down.
pub fn halve_times(size: u32, steps: usize) -> (halved: u32)
    ensures
        halved == halved_times(size as int, steps as nat),
{
    let mut halved: u32 = size;
    let mut i: usize = 0;
    while i < steps
        invariant
            i <= steps,
            halved == halved_times(size as int, i as nat),
        decreases steps - i,
    {
        halved = halved / 2;
        i += 1;
    }
    halved
}

/// Halving never leaves the 32-bit sizes.
pub proof fn lemma_halved_is_size(size: int, steps: nat)
    requires
        is_size(size),
    ensures
        is_size(halved_times(size, steps)),
        halved_times(size, steps) <= size,
    decreases steps,
{
    if steps > 0 {
        lemma_halved_is_size(size, (steps - 1) as nat);
    }
}

/// The resolutions of `stages` ray stages that start at `base`, or nothing
/// when one of them is not a 32-bit size.
pub fn ray_resolutions(base: Resolution, multiplier: u32, stages: usize) -> (schedule: Option<
    Vec<Resolution>,
>)
    ensures
        ray_sizes_fit(base, multiplier, stages as nat) <==> schedule.is_some(),
        schedule.is_some() ==> {
            &&& schedule.unwrap()@.len() == stages
            &&& forall|i: int|
                0 <= i < stages ==> #[trigger] schedule.unwrap()@[i] == ray_resolution(
                    base,
                    multiplier,
                    i as nat,
                )
        },
{
    let mut schedule: Vec<Resolution> = Vec::new();
    if stages == 0 {
        return Some(schedule);
    }
    let mut current = base;
    schedule.push(current);
    assert(grown_times(base.width as int, multiplier as int, 0) == base.width);
    assert(grown_times(base.height as int, multiplier as int, 0) == base.height);
    let mut i: usize = 1;
    while i < stages
        invariant
            1 <= i <= stages,
            schedule@.len() == i,
            ray_sizes_fit(base, multiplier, i as nat),
            current == ray_resolution(base, multiplier, (i - 1) as nat),
            forall|k: int|
                0 <= k < i ==> #[trigger] schedule@[k] == ray_resolution(base, multiplier, k as nat),
        decreases stages - i,
    {
        let width = grow(current.width, multiplier);
        let height = grow(current.height, multiplier);
        proof {
            assert(is_size(grown_times(base.width as int, multiplier as int, (i - 1) as nat)));
            assert(grown_times(base.width as int, multiplier as int, i as nat) == grown(
                current.width as int,
                multiplier as int,
            ));
            assert(grown_times(base.height as int, multiplier as int, i as nat) == grown(
                current.height as int,
                multiplier as int,
            ));
        }
        match (width, height) {
            (Some(w), Some(h)) => {
                current = Resolution { width: w, height: h };
                schedule.push(current);
                assert forall|j: nat| j < i + 1 implies is_size(
                    #[trigger] grown_times(base.width as int, multiplier as int, j),
                ) && is_size(grown_times(base.height as int, multiplier as int, j)) by {
                    if j < i {
                        assert(is_size(grown_times(base.width as int, multiplier as int, j)));
                    }
                }
            },
            _ => {
                assert(!ray_sizes_fit(base, multiplier, stages as nat)) by {
                    if ray_sizes_fit(base, multiplier, stages as nat) {
                        assert(is_size(
                            grown_times(base.width as int, multiplier as int, i as nat),
                        ));
                        assert(is_size(
                            grown_times(base.height as int, multiplier as int, i as nat),
                        ));
                    }
                }
                return None;
            },
        }
        i += 1;
    }
    Some(schedule)
}

/// Lays out the chain of a frame: `ray_stages` ray stages that start at
/// `base` and grow by `multiplier`, a sky stage, `bloom_stages` halving and
/// as many doubling bloom stages, then the mix, tone-mapping, edge-smoothing
/// and screen stages.
pub fn build_chain(base: Resolution, multiplier: u32, ray_stages: usize, bloom_stages: usize) -> (chain:
    Result<PipelineChain, ChainError>)
    requires
        ray_stages + 2 * bloom_stages + 5 <= usize::MAX,
    ensures
        ray_stages == 0 ==> chain == Err::<PipelineChain, ChainError>(ChainError::NoRayStage),
        ray_stages > 0 && bloom_stages == 0 ==> chain == Err::<PipelineChain, ChainError>(
            ChainError::NoBloomStage,
        ),
        ray_stages > 0 && bloom_stages > 0 && !ray_sizes_fit(base, multiplier, ray_stages as nat)
            ==> chain == Err::<PipelineChain, ChainError>(ChainError::ResolutionOutOfRange),
        ray_stages > 0 && bloom_stages > 0 && ray_sizes_fit(base, multiplier, ray_stages as nat)
            ==> {
            &&& chain.is_ok()
            &&& chain.unwrap().ray_stages == ray_stages
            &&& chain.unwrap().bloom_stages == bloom_stages
            &&& chain.unwrap().stages@.len() == chain_len(ray_stages as nat, bloom_stages as nat)
            &&& forall|i: int|
                0 <= i < chain.unwrap().stages@.len() ==> #[trigger] chain.unwrap().stages@[i]
                    == stage_at(base, multiplier, ray_stages as nat, bloom_stages as nat, i as nat)
        },
{
    if ray_stages == 0 {
        return Err(ChainError::NoRayStage);
    }
    if bloom_stages == 0 {
        return Err(ChainError::NoBloomStage);
    }
    let schedule = match ray_resolutions(base, multiplier, ray_stages) {
        Some(schedule) => schedule,
        None => {
            return Err(ChainError::ResolutionOutOfRange);
        },
    };
    let ghost rays = ray_stages as nat;
    let ghost blooms = bloom_stages as nat;
    let mut stages: Vec<Stage> = Vec::new();
    let mut i: usize = 0;
    while i < ray_stages
        invariant
            i <= ray_stages,
            rays == ray_stages,
            blooms == bloom_stages,
            schedule@.len() == ray_stages,
            forall|k: int|
                0 <= k < ray_stages ==> #[trigger] schedule@[k] == ray_resolution(
                    base,
                    multiplier,
                    k as nat,
                ),
            stages@.len() == i,
            forall|k: int|
                0 <= k < i ==> #[trigger] stages@[k] == stage_at(
                    base,
                    multiplier,
                    rays,
                    blooms,
                    k as nat,
                ),
        decreases ray_stages - i,
    {
        let input = if i == 0 {
            None
        } else {
            Some(i - 1)
        };
        stages.push(
            Stage { kind: StageKind::Ray, resolution: schedule[i], input, second_input: None },
        );
        assert(stages@[i as int] == stage_at(base, multiplier, rays, blooms, i as nat));
        i += 1;
    }
    let full = schedule[ray_stages - 1];
    stages.push(
        Stage {
            kind: StageKind::Sky,
            resolution: full,
            input: Some(ray_stages - 1),
            second_input: None,
        },
    );
    let mut b: usize = 0;
    while b < 2 * bloom_stages
        invariant
            b <= 2 * bloom_stages,
            rays == ray_stages,
            blooms == bloom_stages,
            ray_stages > 0,
            bloom_stages > 0,
            ray_stages + 2 * bloom_stages + 5 <= usize::MAX,
            full == ray_resolution(base, multiplier, (rays - 1) as nat),
            stages@.len() == ray_stages + 1 + b,
            forall|k: int|
                0 <= k < stages@.len() ==> #[trigger] stages@[k] == stage_at(
                    base,
                    multiplier,
                    rays,
                    blooms,
                    k as nat,
                ),
        decreases 2 * bloom_stages - b,
    {
        let down = b < bloom_stages;
        let steps = if down {
            b + 1
        } else {
            2 * bloom_stages - 1 - b
        };
        let resolution = Resolution {
            width: halve_times(full.width, steps),
            height: halve_times(full.height, steps),
        };
        let direction = if down {
            BloomDirection::Down
        } else {
            BloomDirection::Up
        };
        let at = stages.len();
        stages.push(
            Stage {
                kind: StageKind::Bloom(direction),
                resolution,
                input: Some(at - 1),
                second_input: None,
            },
        );
        proof {
            lemma_halved_is_size(full.width as int, steps as nat);
            lemma_halved_is_size(full.height as int, steps as nat);
            assert(bloom_size(full.width as int, blooms, b as nat) == halved_times(
                full.width as int,
                steps as nat,
            ));
            assert(resolution == bloom_resolution(full, blooms, b as nat));
            assert(stages@[at as int] == stage_at(base, multiplier, rays, blooms, at as nat));
        }
        b += 1;
    }
    let at = stages.len();
    stages.push(
        Stage {
            kind: StageKind::Mix,
            resolution: full,
            input: Some(ray_stages),
            second_input: Some(at - 1),
        },
    );
    stages.push(
        Stage { kind: StageKind::Hdr, resolution: full, input: Some(at), second_input: None },
    );
    stages.push(
        Stage { kind: StageKind::Fxaa, resolution: full, input: Some(at + 1), second_input: None },
    );
    stages.push(
        Stage {
            kind: StageKind::Screen,
            resolution: full,
            input: Some(at + 2),
            second_input: None,
        },
    );
    Ok(PipelineChain { stages, ray_stages, bloom_stages })
}

/// Every ray stage works at the base resolution grown once for each stage
/// before it, and the sky stage works at the resolution of the last ray
/// stage.
pub proof fn lemma_ray_schedule(base: Resolution, multiplier: u32, rays: nat, blooms: nat, i: nat)
    requires
        0 < rays,
        i < rays,
    ensures
        stage_at(base, multiplier, rays, blooms, i).kind == StageKind::Ray,
        stage_at(base, multiplier, rays, blooms, i).resolution == ray_resolution(
            base,
            multiplier,
            i,
        ),
        i + 1 < rays && is_size(grown_times(base.width as int, multiplier as int, i)) ==> stage_at(
            base,
            multiplier,
            rays,
            blooms,
            i + 1,
        ).resolution.width == grown(
            stage_at(base, multiplier, rays, blooms, i).resolution.width as int,
            multiplier as int,
        ) as u32,
        stage_at(base, multiplier, rays, blooms, rays).kind == StageKind::Sky,
        stage_at(base, multiplier, rays, blooms, rays).resolution == stage_at(
            base,
            multiplier,
            rays,
            blooms,
            (rays - 1) as nat,
        ).resolution,
{
}

/// The bloom stages end at the resolution at which they began, and every
/// stage behind them works at that resolution.
pub proof fn lemma_bloom_returns(base: Resolution, multiplier: u32, rays: nat, blooms: nat, i: nat)
    requires
        0 < rays,
        0 < blooms,
        rays + 2 * blooms <= i < chain_len(rays, blooms),
    ensures
        stage_at(base, multiplier, rays, blooms, i).resolution == stage_at(
            base,
            multiplier,
            rays,
            blooms,
            rays,
        ).resolution,
{
    let full = ray_resolution(base, multiplier, (rays - 1) as nat);
    assert(halved_times(full.width as int, 0) == full.width);
    assert(halved_times(full.height as int, 0) == full.height);
}

/// Every stage but the first reads the stage before it; the mix stage reads
/// the sky stage as well, and no other stage reads two.
pub proof fn lemma_chain_is_linear(
    base: Resolution,
    multiplier: u32,
    rays: nat,
    blooms: nat,
    i: nat,
)
    requires
        0 < rays,
        0 < blooms,
        i < chain_len(rays, blooms) <= usize::MAX,
    ensures
        i == 0 ==> stage_at(base, multiplier, rays, blooms, i).input.is_none(),
        i > 0 && i != rays + 2 * blooms + 1 ==> stage_at(base, multiplier, rays, blooms, i).input
            == Some((i - 1) as usize),
        i != rays + 2 * blooms + 1 ==> stage_at(
            base,
            multiplier,
            rays,
            blooms,
            i,
        ).second_input.is_none(),
        i == rays + 2 * blooms + 1 ==> {
            &&& stage_at(base, multiplier, rays, blooms, i).kind == StageKind::Mix
            &&& stage_at(base, multiplier, rays, blooms, i).input == Some(rays as usize)
            &&& stage_at(base, multiplier, rays, blooms, i).second_input == Some((i - 1) as usize)
        },
{
}

/// Whatever a stage reads was written by a stage that stands before it in
/// the chain, so running the stages in order never reads what is not there.
pub proof fn lemma_inputs_come_first(
    base: Resolution,
    multiplier: u32,
    rays: nat,
    blooms: nat,
    i: nat,
)
    requires
        0 < rays,
        0 < blooms,
        i < chain_len(rays, blooms) <= usize::MAX,
    ensures
        stage_at(base, multiplier, rays, blooms, i).input.is_some() ==> stage_at(
            base,
            multiplier,
            rays,
            blooms,
            i,
        ).input.unwrap() < i,
        stage_at(base, multiplier, rays, blooms, i).second_input.is_some() ==> stage_at(
            base,
            multiplier,
            rays,
            blooms,
            i,
        ).second_input.unwrap() < i,
{
}

} // verus!
