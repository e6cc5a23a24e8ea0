use vstd::prelude::*;

verus! {

/// A colour channel `c` scaled by alpha `a`, both over 0..=255, rounded
/// to the nearest value.
pub open spec fn premultiplied_channel(c: u8, a: u8) -> int {
    (c * a + 127) / 255
}

/// Byte `k` of pixel `p` in a tightly packed RGBA buffer.
pub open spec fn pixel_byte(p: int, k: int) -> int {
    4 * p + k
}

/// `after` is `before` with the colour channels of every whole RGBA pixel
/// premultiplied by its alpha; alpha and any trailing partial pixel keep
/// their bytes.
pub open spec fn is_premultiplied(before: Seq<u8>, after: Seq<u8>) -> bool {
    &&& after.len() == before.len()
    &&& forall|p: int, k: int|
        0 <= p < before.len() / 4 && 0 <= k < 3 ==> after[#[trigger] pixel_byte(p, k)]
            == premultiplied_channel(before[pixel_byte(p, k)], before[pixel_byte(p, 3)])
    &&& forall|p: int| 0 <= p < before.len() / 4 ==> after[#[trigger] pixel_byte(p, 3)] == before[pixel_byte(p, 3)]
    &&& forall|i: int| 4 * (before.len() / 4) <= i < before.len() ==> after[i] == before[i]
}

/// Premultiplies the colour of RGBA8 pixels by their alpha, in place.
pub fn premultiply_rgba8(bytes: &mut [u8])
    ensures
        is_premultiplied(old(bytes)@, final(bytes)@),
{
    let ghost before = bytes@;
    let pixels = bytes.len() / 4;
    assert(before.len() == bytes.len());
    let mut p: usize = 0;
    while p < pixels
        invariant
            pixels == before.len() / 4,
            bytes@.len() == before.len(),
            before.len() <= usize::MAX,
            p <= pixels,
            forall|q: int, k: int|
                0 <= q < p && 0 <= k < 3 ==> bytes@[#[trigger] pixel_byte(q, k)]
                    == premultiplied_channel(before[pixel_byte(q, k)], before[pixel_byte(q, 3)]),
            forall|i: int| 4 * p <= i < before.len() ==> bytes@[i] == before[i],
            forall|q: int| 0 <= q < p ==> bytes@[#[trigger] pixel_byte(q, 3)] == before[pixel_byte(q, 3)],
        decreases pixels - p,
    {
        assert(4 * p + 4 <= before.len()) by (nonlinear_arith)
            requires
                p < pixels,
                pixels == before.len() / 4,
        ;
        let base = 4 * p;
        let a = bytes[base + 3] as u32;
        let mut k: usize = 0;
        while k < 3
            invariant
                pixels == before.len() / 4,
                bytes@.len() == before.len(),
                p < pixels,
                base == 4 * p,
                4 * p + 4 <= before.len(),
                a == before[pixel_byte(p as int, 3)],
                k <= 3,
                forall|q: int, j: int|
                    (0 <= q < p && 0 <= j < 3) || (q == p && 0 <= j < k) ==> bytes@[#[trigger] pixel_byte(q, j)]
                        == premultiplied_channel(before[pixel_byte(q, j)], before[pixel_byte(q, 3)]),
                forall|i: int| base + k <= i < before.len() ==> bytes@[i] == before[i],
                forall|q: int| 0 <= q < p ==> bytes@[#[trigger] pixel_byte(q, 3)] == before[pixel_byte(q, 3)],
            decreases 3 - k,
        {
            let c = bytes[base + k] as u32;
            assert(c * a <= 255 * 255) by (nonlinear_arith)
                requires
                    c <= 255,
                    a <= 255,
            ;
            let v = (c * a + 127) / 255;
            bytes[base + k] = v as u8;
            assert(bytes@[pixel_byte(p as int, k as int)] == premultiplied_channel(
                before[pixel_byte(p as int, k as int)],
                before[pixel_byte(p as int, 3)],
            ));
            k = k + 1;
        }
        p = p + 1;
    }
}

/// The stages of a model update, each with its fixed order value.
#[derive(Clone, Copy, Debug, PartialEq, Eq, Structural)]
pub enum Live2DUpdateStage {
    EyeBlink,
    Expression,
    Look,
    Breath,
    Physics,
    LipSync,
    Pose,
}

pub open spec fn stage_order(stage: Live2DUpdateStage) -> u32 {
    match stage {
        Live2DUpdateStage::EyeBlink => 200,
        Live2DUpdateStage::Expression => 300,
        Live2DUpdateStage::Look => 400,
        Live2DUpdateStage::Breath => 500,
        Live2DUpdateStage::Physics => 600,
        Live2DUpdateStage::LipSync => 700,
        Live2DUpdateStage::Pose => 800,
    }
}

impl Live2DUpdateStage {
    /// The stage's order value: stages run from low values to high.
    pub fn order(self) -> (r: u32)
        ensures
            r == stage_order(self),
    {
        match self {
            Live2DUpdateStage::EyeBlink => 200,
            Live2DUpdateStage::Expression => 300,
            Live2DUpdateStage::Look => 400,
            Live2DUpdateStage::Breath => 500,
            Live2DUpdateStage::Physics => 600,
            Live2DUpdateStage::LipSync => 700,
            Live2DUpdateStage::Pose => 800,
        }
    }
}

/// Runs the stages of a model update in a fixed order.
pub struct Live2DUpdateScheduler;

impl Live2DUpdateScheduler {
    /// The stages, in the order one update runs them.
    pub fn stages() -> (r: [Live2DUpdateStage; 7])
        ensures
            r@ == seq![
                Live2DUpdateStage::EyeBlink,
                Live2DUpdateStage::Expression,
                Live2DUpdateStage::Look,
                Live2DUpdateStage::Breath,
                Live2DUpdateStage::Physics,
                Live2DUpdateStage::LipSync,
                Live2DUpdateStage::Pose,
            ],
    {
        let r = [
            Live2DUpdateStage::EyeBlink,
            Live2DUpdateStage::Expression,
            Live2DUpdateStage::Look,
            Live2DUpdateStage::Breath,
            Live2DUpdateStage::Physics,
            Live2DUpdateStage::LipSync,
            Live2DUpdateStage::Pose,
        ];
        assert(r@ =~= seq![
            Live2DUpdateStage::EyeBlink,
            Live2DUpdateStage::Expression,
            Live2DUpdateStage::Look,
            Live2DUpdateStage::Breath,
            Live2DUpdateStage::Physics,
            Live2DUpdateStage::LipSync,
            Live2DUpdateStage::Pose,
        ]);
        r
    }

    /// Whether the stages run in non-decreasing order value; they do.
    pub fn is_sorted() -> (r: bool)
        ensures
            r == (forall|i: int, j: int|
                0 <= i <= j < 7 ==> stage_order(Self::stages_spec()[i]) <= stage_order(
                    Self::stages_spec()[j],
                )),
            r,
    {
        let stages = Self::stages();
        let mut index: usize = 1;
        while index < 7
            invariant
                1 <= index <= 7,
                stages@ == Self::stages_spec(),
                forall|i: int, j: int|
                    0 <= i <= j < index ==> stage_order(stages@[i]) <= stage_order(stages@[j]),
            decreases 7 - index,
        {
            if stages[index - 1].order() > stages[index].order() {
                return false;
            }
            index = index + 1;
        }
        true
    }

    pub open spec fn stages_spec() -> Seq<Live2DUpdateStage> {
        seq![
            Live2DUpdateStage::EyeBlink,
            Live2DUpdateStage::Expression,
            Live2DUpdateStage::Look,
            Live2DUpdateStage::Breath,
            Live2DUpdateStage::Physics,
            Live2DUpdateStage::LipSync,
            Live2DUpdateStage::Pose,
        ]
    }
}

/// Which update components a model has.
#[derive(Clone, Copy, Debug, PartialEq, Eq, Structural)]
pub struct Live2DComponents {
    pub eye_blink: bool,
    pub expression: bool,
    pub look: bool,
    pub breath: bool,
    pub physics: bool,
    pub lip_sync: bool,
    pub pose: bool,
}

/// A stage runs when the model has its component; eye blinking also only
/// when no motion updated the model this frame.
pub open spec fn stage_runs(stage: Live2DUpdateStage, c: Live2DComponents, motion_updated: bool) -> bool {
    match stage {
        Live2DUpdateStage::EyeBlink => c.eye_blink && !motion_updated,
        Live2DUpdateStage::Expression => c.expression,
        Live2DUpdateStage::Look => c.look,
        Live2DUpdateStage::Breath => c.breath,
        Live2DUpdateStage::Physics => c.physics,
        Live2DUpdateStage::LipSync => c.lip_sync,
        Live2DUpdateStage::Pose => c.pose,
    }
}

impl Live2DUpdateScheduler {
    /// The stages one model update runs, in stage order.
    pub fn run_plan(components: Live2DComponents, motion_updated: bool) -> (r: Vec<Live2DUpdateStage>)
        ensures
            r@ == Self::stages_spec().filter(|s: Live2DUpdateStage| stage_runs(s, components, motion_updated)),
            forall|i: int, j: int| 0 <= i < j < r@.len() ==> stage_order(r@[i]) < stage_order(r@[j]),
    {
        let ghost pred = |s: Live2DUpdateStage| stage_runs(s, components, motion_updated);
        let stages = Self::stages();
        let mut r: Vec<Live2DUpdateStage> = Vec::new();
        let mut i: usize = 0;
        assert(stages@.take(0) =~= Seq::<Live2DUpdateStage>::empty());
        proof {
            reveal(Seq::filter);
        }
        while i < 7
            invariant
                i <= 7,
                stages@ == Self::stages_spec(),
                pred == (|s: Live2DUpdateStage| stage_runs(s, components, motion_updated)),
                r@ == stages@.take(i as int).filter(pred),
                forall|a: int, b: int| 0 <= a < b < r@.len() ==> stage_order(r@[a]) < stage_order(r@[b]),
                forall|a: int| 0 <= a < r@.len() ==> i > 0 && stage_order(r@[a]) <= stage_order(stages@[i - 1]),
            decreases 7 - i,
        {
            let stage = stages[i];
            let ghost after = stages@.take(i + 1);
            assert(after.drop_last() =~= stages@.take(i as int));
            assert(after.last() == stage);
            proof {
                reveal(Seq::filter);
            }
            let runs = match stage {
                Live2DUpdateStage::EyeBlink => components.eye_blink && !motion_updated,
                Live2DUpdateStage::Expression => components.expression,
                Live2DUpdateStage::Look => components.look,
                Live2DUpdateStage::Breath => components.breath,
                Live2DUpdateStage::Physics => components.physics,
                Live2DUpdateStage::LipSync => components.lip_sync,
                Live2DUpdateStage::Pose => components.pose,
            };
            assert(stage_runs(stage, components, motion_updated) == runs);
            assert(pred(stage) == stage_runs(stage, components, motion_updated));
            let ghost before_r = r@;
            if runs {
                r.push(stage);
            }
            assert(after.filter(pred) == (if pred(after.last()) {
                after.drop_last().filter(pred).push(after.last())
            } else {
                after.drop_last().filter(pred)
            }));
            assert(r@ == after.filter(pred));
            i = i + 1;
        }
        assert(stages@.take(7) =~= stages@);
        r
    }
}


/// A stage is in the plan exactly when it passes the run test.
proof fn lemma_plan_contains(c: Live2DComponents, motion_updated: bool, k: int)
    requires
        0 <= k < 7,
    ensures
        Live2DUpdateScheduler::stages_spec().filter(
            |s: Live2DUpdateStage| stage_runs(s, c, motion_updated),
        ).contains(Live2DUpdateScheduler::stages_spec()[k]) <==> stage_runs(
            Live2DUpdateScheduler::stages_spec()[k],
            c,
            motion_updated,
        ),
{
    let stages = Live2DUpdateScheduler::stages_spec();
    let pred = |s: Live2DUpdateStage| stage_runs(s, c, motion_updated);
    let plan = stages.filter(pred);
    if pred(stages[k]) {
        stages.lemma_filter_contains(pred, k);
    }
    if plan.contains(stages[k]) {
        let j = choose|j: int| 0 <= j < plan.len() && plan[j] == stages[k];
        stages.lemma_filter_pred(pred, j);
    }
}

/// Law: every stage of a model update runs exactly when the model has that
/// stage's own component, whatever its other components; eye blinking also
/// only when no motion updated the model this frame.
pub proof fn lemma_stages_run_by_their_components(c: Live2DComponents, motion_updated: bool)
    ensures
        ({
            let plan = Live2DUpdateScheduler::stages_spec().filter(
                |s: Live2DUpdateStage| stage_runs(s, c, motion_updated),
            );
            &&& plan.contains(Live2DUpdateStage::EyeBlink) <==> c.eye_blink && !motion_updated
            &&& plan.contains(Live2DUpdateStage::Expression) <==> c.expression
            &&& plan.contains(Live2DUpdateStage::Look) <==> c.look
            &&& plan.contains(Live2DUpdateStage::Breath) <==> c.breath
            &&& plan.contains(Live2DUpdateStage::Physics) <==> c.physics
            &&& plan.contains(Live2DUpdateStage::LipSync) <==> c.lip_sync
            &&& plan.contains(Live2DUpdateStage::Pose) <==> c.pose
        }),
{
    let stages = Live2DUpdateScheduler::stages_spec();
    assert(stages[0] == Live2DUpdateStage::EyeBlink);
    assert(stages[1] == Live2DUpdateStage::Expression);
    assert(stages[2] == Live2DUpdateStage::Look);
    assert(stages[3] == Live2DUpdateStage::Breath);
    assert(stages[4] == Live2DUpdateStage::Physics);
    assert(stages[5] == Live2DUpdateStage::LipSync);
    assert(stages[6] == Live2DUpdateStage::Pose);
    lemma_plan_contains(c, motion_updated, 0);
    lemma_plan_contains(c, motion_updated, 1);
    lemma_plan_contains(c, motion_updated, 2);
    lemma_plan_contains(c, motion_updated, 3);
    lemma_plan_contains(c, motion_updated, 4);
    lemma_plan_contains(c, motion_updated, 5);
    lemma_plan_contains(c, motion_updated, 6);
}

} // verus!
