//! The generic command manager: per-device storage of the last-sent
//! level of every actuator feature, request validation against the
//! declared capability profile, and computation of the minimal change
//! set a handler must actually write.
//!
//! Requested levels are fractions in level units (see
//! [`crate::messages::LEVEL_SCALE`]); stored state holds each level
//! scaled to the feature's declared step count, rounded half up.

use vstd::prelude::*;
use vstd::arithmetic::div_mod::{
    lemma_div_is_ordered, lemma_div_pos_is_pos, lemma_multiply_divide_lt,
};
use vstd::arithmetic::mul::lemma_mul_inequality;
use crate::configuration::{ProtocolDeviceAttributes, MAX_STEP_COUNT};
use crate::errors::ButtplugDeviceError;
use crate::messages::{
    ButtplugDeviceCommandMessageUnion, ButtplugDeviceMessageType, LEVEL_SCALE, RotateCmd,
    RotationSubcommand, ScalarCmd, ScalarSubcommand, VibrateCmd, VibrateSubcommand,
};
use crate::util::copy_u32_vec;

verus! {

/// `level` scaled to a feature with `steps` steps: the integer nearest
/// to `level * steps / LEVEL_SCALE`, rounding half up.
pub open spec fn spec_scale_level(level: u32, steps: u32) -> u32 {
    (((level * steps) + (LEVEL_SCALE as int) / 2) / (LEVEL_SCALE as int)) as u32
}

/// A scaled level never exceeds the feature's step count.
pub proof fn lemma_scale_level_le_steps(level: u32, steps: u32)
    requires
        level <= LEVEL_SCALE,
        steps >= 1,
    ensures
        0 <= ((level * steps) + (LEVEL_SCALE as int) / 2) / (LEVEL_SCALE as int) <= steps,
        spec_scale_level(level, steps) <= steps,
{
    let scale = LEVEL_SCALE as int;
    let num = (level * steps) + scale / 2;
    assert(scale / 2 == 500_000);
    assert((level * steps) + 500_000 < 1_000_000 * (steps + 1)) by (nonlinear_arith)
        requires
            level <= 1_000_000,
            steps >= 1,
    ;
    lemma_multiply_divide_lt(num, scale, steps + 1);
    assert(level * steps >= 0) by (nonlinear_arith);
    lemma_div_pos_is_pos(num, scale);
}

/// Scaling is monotone in the requested level: asking for more never
/// stores less.
pub proof fn lemma_scale_level_monotone(l1: u32, l2: u32, steps: u32)
    requires
        l1 <= l2,
        l1 <= LEVEL_SCALE,
        l2 <= LEVEL_SCALE,
        steps >= 1,
    ensures
        spec_scale_level(l1, steps) <= spec_scale_level(l2, steps),
{
    let scale = LEVEL_SCALE as int;
    lemma_mul_inequality(l1 as int, l2 as int, steps as int);
    lemma_div_is_ordered((l1 * steps) + scale / 2, (l2 * steps) + scale / 2, scale);
    lemma_scale_level_le_steps(l1, steps);
    lemma_scale_level_le_steps(l2, steps);
}

/// Scales a requested level to a feature's step range.
pub fn scale_level(level: u32, steps: u32) -> (r: u32)
    requires
        level <= LEVEL_SCALE,
        1 <= steps <= MAX_STEP_COUNT,
    ensures
        r == spec_scale_level(level, steps),
        r <= steps,
{
    proof {
        lemma_scale_level_le_steps(level, steps);
    }
    let num: u64 = (level as u64) * (steps as u64) + ((LEVEL_SCALE / 2) as u64);
    let q: u64 = num / (LEVEL_SCALE as u64);
    q as u32
}

/// The per-feature (index, level) pairs a vibrate request carries.
pub open spec fn spec_vibrate_pairs(speeds: Seq<VibrateSubcommand>) -> Seq<(u32, u32)> {
    speeds.map_values(|s: VibrateSubcommand| (s.index, s.speed))
}

/// The per-feature (index, level) pairs a scalar request carries.
pub open spec fn spec_scalar_pairs(scalars: Seq<ScalarSubcommand>) -> Seq<(u32, u32)> {
    scalars.map_values(|s: ScalarSubcommand| (s.index, s.scalar))
}

/// Every pair addresses a declared feature with a level within full
/// scale.
pub open spec fn spec_pairs_valid(cmds: Seq<(u32, u32)>, feature_count: int) -> bool {
    forall|i: int|
        0 <= i < cmds.len() ==> (#[trigger] cmds[i]).0 < feature_count && cmds[i].1 <= LEVEL_SCALE
}

/// The first validation error in a level request, scanning pairs in
/// order: an out-of-range feature index, or a level beyond full scale.
pub open spec fn spec_first_pair_error(
    cmds: Seq<(u32, u32)>,
    feature_count: int,
    i: int,
) -> Option<ButtplugDeviceError>
    decreases cmds.len() - i,
{
    if i < 0 || i >= cmds.len() {
        None
    } else if cmds[i].0 >= feature_count {
        Some(ButtplugDeviceError::DeviceFeatureIndexError(feature_count as u32, cmds[i].0))
    } else if cmds[i].1 > LEVEL_SCALE {
        Some(ButtplugDeviceError::InvalidValue(cmds[i].0, cmds[i].1))
    } else {
        spec_first_pair_error(cmds, feature_count, i + 1)
    }
}

/// State after applying each (index, level) pair in order: the
/// addressed slot takes the scaled level, later pairs win.
pub open spec fn spec_apply_levels(
    current: Seq<u32>,
    steps: Seq<u32>,
    cmds: Seq<(u32, u32)>,
) -> Seq<u32>
    decreases cmds.len(),
{
    if cmds.len() == 0 {
        current
    } else {
        spec_apply_levels(
            current.update(cmds[0].0 as int, spec_scale_level(cmds[0].1, steps[cmds[0].0 as int])),
            steps,
            cmds.drop_first(),
        )
    }
}

/// Appending one pair applies it after all the others.
pub proof fn lemma_apply_levels_snoc(
    current: Seq<u32>,
    steps: Seq<u32>,
    cmds: Seq<(u32, u32)>,
    x: (u32, u32),
)
    requires
        current.len() == steps.len(),
        spec_pairs_valid(cmds, current.len() as int),
        x.0 < current.len(),
    ensures
        spec_apply_levels(current, steps, cmds.push(x)) == spec_apply_levels(
            current,
            steps,
            cmds,
        ).update(x.0 as int, spec_scale_level(x.1, steps[x.0 as int])),
    decreases cmds.len(),
{
    if cmds.len() == 0 {
        let pushed = cmds.push(x);
        let c2 = current.update(x.0 as int, spec_scale_level(x.1, steps[x.0 as int]));
        assert(pushed[0] == x);
        assert(pushed.drop_first() =~= Seq::<(u32, u32)>::empty());
        assert(spec_apply_levels(c2, steps, Seq::<(u32, u32)>::empty()) == c2);
        assert(spec_apply_levels(current, steps, pushed) == spec_apply_levels(
            c2,
            steps,
            pushed.drop_first(),
        ));
    } else {
        let c2 = current.update(
            cmds[0].0 as int,
            spec_scale_level(cmds[0].1, steps[cmds[0].0 as int]),
        );
        assert(cmds.push(x).drop_first() =~= cmds.drop_first().push(x));
        assert(spec_pairs_valid(cmds.drop_first(), current.len() as int)) by {
            assert(forall|j: int|
                0 <= j < cmds.drop_first().len() ==> #[trigger] cmds.drop_first()[j] == cmds[j
                    + 1]);
        }
        lemma_apply_levels_snoc(c2, steps, cmds.drop_first(), x);
    }
}

/// Applying pairs keeps the state's length.
pub proof fn lemma_apply_levels_len(current: Seq<u32>, steps: Seq<u32>, cmds: Seq<(u32, u32)>)
    requires
        current.len() == steps.len(),
        spec_pairs_valid(cmds, current.len() as int),
    ensures
        spec_apply_levels(current, steps, cmds).len() == current.len(),
    decreases cmds.len(),
{
    if cmds.len() > 0 {
        assert(spec_pairs_valid(cmds.drop_first(), current.len() as int)) by {
            assert(forall|j: int|
                0 <= j < cmds.drop_first().len() ==> #[trigger] cmds.drop_first()[j] == cmds[j
                    + 1]);
        }
        lemma_apply_levels_len(
            current.update(cmds[0].0 as int, spec_scale_level(cmds[0].1, steps[cmds[0].0 as int])),
            steps,
            cmds.drop_first(),
        );
    }
}

/// The level the last pair addressing `idx` requests, if any.
pub open spec fn spec_last_level(cmds: Seq<(u32, u32)>, idx: int) -> Option<u32>
    decreases cmds.len(),
{
    if cmds.len() == 0 {
        None
    } else if cmds.last().0 == idx {
        Some(cmds.last().1)
    } else {
        spec_last_level(cmds.drop_last(), idx)
    }
}

/// Pointwise meaning of applying a level request: a slot addressed by
/// some pair holds the scaled level of the last such pair; every other
/// slot keeps its old value.
pub proof fn lemma_apply_levels_pointwise(
    current: Seq<u32>,
    steps: Seq<u32>,
    cmds: Seq<(u32, u32)>,
    i: int,
)
    requires
        0 <= i < current.len(),
        current.len() == steps.len(),
        spec_pairs_valid(cmds, current.len() as int),
    ensures
        spec_apply_levels(current, steps, cmds)[i] == match spec_last_level(cmds, i) {
            Some(l) => spec_scale_level(l, steps[i]),
            None => current[i],
        },
    decreases cmds.len(),
{
    lemma_apply_levels_len(current, steps, cmds);
    if cmds.len() > 0 {
        let prefix = cmds.drop_last();
        let x = cmds.last();
        assert(prefix.push(x) =~= cmds);
        lemma_apply_levels_snoc(current, steps, prefix, x);
        assert(spec_pairs_valid(prefix, current.len() as int)) by {
            assert(forall|j: int|
                0 <= j < prefix.len() ==> #[trigger] prefix[j] == cmds[j]);
        }
        lemma_apply_levels_pointwise(current, steps, prefix, i);
        lemma_apply_levels_len(current, steps, prefix);
    }
}

/// Result of one level-request update: the new stored state and the
/// change set handed to the caller. `None` means nothing changed and
/// nothing must be written. In a returned change set, a feature whose
/// scaled value changed (or every feature, when `match_all` is set or
/// a pattern is active) carries its new value.
pub open spec fn spec_update_levels(
    current: Seq<u32>,
    steps: Seq<u32>,
    cmds: Seq<(u32, u32)>,
    match_all: bool,
    pattern_active: bool,
) -> (Seq<u32>, Option<Seq<Option<u32>>>) {
    let newcur = spec_apply_levels(current, steps, cmds);
    if newcur == current && !pattern_active {
        (current, None)
    } else {
        (
            newcur,
            Some(
                Seq::new(
                    newcur.len(),
                    |i: int|
                        if newcur[i] != current[i] || match_all || pattern_active {
                            Some(newcur[i])
                        } else {
                            None
                        },
                ),
            ),
        )
    }
}

/// Anti-chatter law: when every level a request asks for scales to the
/// value already stored for its feature, the update emits no change
/// set and leaves the stored state untouched — so a repeat of the
/// command the device last received causes zero writes.
pub proof fn lemma_no_change_set_when_scaled_identical(
    current: Seq<u32>,
    steps: Seq<u32>,
    cmds: Seq<(u32, u32)>,
    match_all: bool,
)
    requires
        current.len() == steps.len(),
        spec_pairs_valid(cmds, current.len() as int),
        forall|i: int|
            0 <= i < current.len() ==> match #[trigger] spec_last_level(cmds, i) {
                Some(l) => spec_scale_level(l, steps[i]) == current[i],
                None => true,
            },
    ensures
        spec_update_levels(current, steps, cmds, match_all, false).1 is None,
        spec_update_levels(current, steps, cmds, match_all, false).0 == current,
{
    let newcur = spec_apply_levels(current, steps, cmds);
    lemma_apply_levels_len(current, steps, cmds);
    assert forall|i: int| 0 <= i < current.len() implies newcur[i] == current[i] by {
        lemma_apply_levels_pointwise(current, steps, cmds, i);
    }
    assert(newcur =~= current);
}

/// Updating twice with the same request emits a change set at most
/// once: whatever the first update stored, the second finds every
/// scaled level already in place and emits nothing.
pub proof fn lemma_repeat_update_emits_nothing(
    current: Seq<u32>,
    steps: Seq<u32>,
    cmds: Seq<(u32, u32)>,
    match_all: bool,
)
    requires
        current.len() == steps.len(),
        spec_pairs_valid(cmds, current.len() as int),
    ensures
        ({
            let first = spec_update_levels(current, steps, cmds, match_all, false);
            let second = spec_update_levels(first.0, steps, cmds, match_all, false);
            second.1 is None && second.0 == first.0
        }),
{
    let first = spec_update_levels(current, steps, cmds, match_all, false);
    let newcur = spec_apply_levels(current, steps, cmds);
    lemma_apply_levels_len(current, steps, cmds);
    assert(first.0.len() == current.len());
    assert forall|i: int|
        0 <= i < first.0.len() implies match #[trigger] spec_last_level(cmds, i) {
        Some(l) => spec_scale_level(l, steps[i]) == first.0[i],
        None => true,
    } by {
        lemma_apply_levels_pointwise(current, steps, cmds, i);
    }
    lemma_no_change_set_when_scaled_identical(first.0, steps, cmds, match_all);
}

/// A request that scans without a validation error is valid
/// throughout.
pub proof fn lemma_no_error_means_valid(cmds: Seq<(u32, u32)>, feature_count: int, i: int)
    requires
        0 <= i <= cmds.len(),
        spec_first_pair_error(cmds, feature_count, i) is None,
        forall|j: int|
            0 <= j < i ==> (#[trigger] cmds[j]).0 < feature_count && cmds[j].1 <= LEVEL_SCALE,
    ensures
        spec_pairs_valid(cmds, feature_count),
    decreases cmds.len() - i,
{
    if i < cmds.len() {
        lemma_no_error_means_valid(cmds, feature_count, i + 1);
    }
}

/// Anti-chatter across two handler calls, from the contracts alone:
/// a handler's update stores the request's scaled levels and leaves
/// the rest of its manager untouched, so feeding the identical
/// request into the resulting manager yields no change set — the
/// repeat causes zero writes.
pub proof fn lemma_handler_repeat_emits_nothing(
    m1: GenericCommandManager,
    m2: GenericCommandManager,
    msg: VibrateCmd,
    match_all: bool,
)
    requires
        m1.wf(),
        !m1.pattern_active,
        spec_preserves_but_vibrate(m1, m2),
        spec_vibration_result(m1, msg, match_all) is Ok,
        m2.vibrate_current@ == spec_vibration_result(m1, msg, match_all)->Ok_0.0,
    ensures
        spec_vibration_result(m2, msg, match_all) is Ok,
        spec_vibration_result(m2, msg, match_all)->Ok_0.1 is None,
        spec_vibration_result(m2, msg, match_all)->Ok_0.0 == m2.vibrate_current@,
{
    let cmds = spec_vibrate_pairs(msg.speeds@);
    let fc = m1.vibrate_steps@.len() as int;
    assert(m2.vibrate_steps == m1.vibrate_steps);
    assert(spec_first_pair_error(cmds, fc, 0) is None);
    lemma_no_error_means_valid(cmds, fc, 0);
    lemma_repeat_update_emits_nothing(m1.vibrate_current@, m1.vibrate_steps@, cmds, match_all);
}

/// The per-feature (index, level, direction) triples of a rotate
/// request.
pub open spec fn spec_rotate_triples(rotations: Seq<RotationSubcommand>) -> Seq<(u32, u32, bool)> {
    rotations.map_values(|s: RotationSubcommand| (s.index, s.speed, s.clockwise))
}

/// Every rotation triple addresses a declared feature with a level
/// within full scale.
pub open spec fn spec_triples_valid(cmds: Seq<(u32, u32, bool)>, feature_count: int) -> bool {
    forall|i: int|
        0 <= i < cmds.len() ==> (#[trigger] cmds[i]).0 < feature_count && cmds[i].1 <= LEVEL_SCALE
}

/// The first validation error in a rotate request.
pub open spec fn spec_first_triple_error(
    cmds: Seq<(u32, u32, bool)>,
    feature_count: int,
    i: int,
) -> Option<ButtplugDeviceError>
    decreases cmds.len() - i,
{
    if i < 0 || i >= cmds.len() {
        None
    } else if cmds[i].0 >= feature_count {
        Some(ButtplugDeviceError::DeviceFeatureIndexError(feature_count as u32, cmds[i].0))
    } else if cmds[i].1 > LEVEL_SCALE {
        Some(ButtplugDeviceError::InvalidValue(cmds[i].0, cmds[i].1))
    } else {
        spec_first_triple_error(cmds, feature_count, i + 1)
    }
}

/// State after applying each rotation triple in order.
pub open spec fn spec_apply_rotations(
    current: Seq<(u32, bool)>,
    steps: Seq<u32>,
    cmds: Seq<(u32, u32, bool)>,
) -> Seq<(u32, bool)>
    decreases cmds.len(),
{
    if cmds.len() == 0 {
        current
    } else {
        spec_apply_rotations(
            current.update(
                cmds[0].0 as int,
                (spec_scale_level(cmds[0].1, steps[cmds[0].0 as int]), cmds[0].2),
            ),
            steps,
            cmds.drop_first(),
        )
    }
}

/// Appending one rotation triple applies it last.
pub proof fn lemma_apply_rotations_snoc(
    current: Seq<(u32, bool)>,
    steps: Seq<u32>,
    cmds: Seq<(u32, u32, bool)>,
    x: (u32, u32, bool),
)
    requires
        current.len() == steps.len(),
        spec_triples_valid(cmds, current.len() as int),
        x.0 < current.len(),
    ensures
        spec_apply_rotations(current, steps, cmds.push(x)) == spec_apply_rotations(
            current,
            steps,
            cmds,
        ).update(x.0 as int, (spec_scale_level(x.1, steps[x.0 as int]), x.2)),
    decreases cmds.len(),
{
    if cmds.len() == 0 {
        let pushed = cmds.push(x);
        let c2 = current.update(x.0 as int, (spec_scale_level(x.1, steps[x.0 as int]), x.2));
        assert(pushed[0] == x);
        assert(pushed.drop_first() =~= Seq::<(u32, u32, bool)>::empty());
        assert(spec_apply_rotations(c2, steps, Seq::<(u32, u32, bool)>::empty()) == c2);
        assert(spec_apply_rotations(current, steps, pushed) == spec_apply_rotations(
            c2,
            steps,
            pushed.drop_first(),
        ));
    } else {
        let c2 = current.update(
            cmds[0].0 as int,
            (spec_scale_level(cmds[0].1, steps[cmds[0].0 as int]), cmds[0].2),
        );
        assert(cmds.push(x).drop_first() =~= cmds.drop_first().push(x));
        assert(spec_triples_valid(cmds.drop_first(), current.len() as int)) by {
            assert(forall|j: int|
                0 <= j < cmds.drop_first().len() ==> #[trigger] cmds.drop_first()[j] == cmds[j
                    + 1]);
        }
        lemma_apply_rotations_snoc(c2, steps, cmds.drop_first(), x);
    }
}

/// Applying rotation triples keeps the state's length.
pub proof fn lemma_apply_rotations_len(
    current: Seq<(u32, bool)>,
    steps: Seq<u32>,
    cmds: Seq<(u32, u32, bool)>,
)
    requires
        current.len() == steps.len(),
        spec_triples_valid(cmds, current.len() as int),
    ensures
        spec_apply_rotations(current, steps, cmds).len() == current.len(),
    decreases cmds.len(),
{
    if cmds.len() > 0 {
        assert(spec_triples_valid(cmds.drop_first(), current.len() as int)) by {
            assert(forall|j: int|
                0 <= j < cmds.drop_first().len() ==> #[trigger] cmds.drop_first()[j] == cmds[j
                    + 1]);
        }
        lemma_apply_rotations_len(
            current.update(
                cmds[0].0 as int,
                (spec_scale_level(cmds[0].1, steps[cmds[0].0 as int]), cmds[0].2),
            ),
            steps,
            cmds.drop_first(),
        );
    }
}

/// Result of one rotate update: new stored state plus a per-feature
/// change list where only features whose scaled speed or direction
/// changed carry a value.
pub open spec fn spec_update_rotations(
    current: Seq<(u32, bool)>,
    steps: Seq<u32>,
    cmds: Seq<(u32, u32, bool)>,
) -> (Seq<(u32, bool)>, Seq<Option<(u32, bool)>>) {
    let newcur = spec_apply_rotations(current, steps, cmds);
    (
        newcur,
        Seq::new(
            newcur.len(),
            |i: int|
                if newcur[i] != current[i] {
                    Some(newcur[i])
                } else {
                    None
                },
        ),
    )
}

/// The complete outcome [`GenericCommandManager::update_vibration`]
/// computes for a request: either its first validation error, or the
/// new stored state paired with the change set.
pub open spec fn spec_vibration_result(
    m: GenericCommandManager,
    msg: VibrateCmd,
    match_all: bool,
) -> Result<(Seq<u32>, Option<Seq<Option<u32>>>), ButtplugDeviceError> {
    let cmds = spec_vibrate_pairs(msg.speeds@);
    let fc = m.vibrate_steps@.len() as int;
    if msg.speeds@.len() != fc {
        Err(ButtplugDeviceError::DeviceFeatureCountMismatch(fc as u32, msg.speeds@.len() as u32))
    } else {
        match spec_first_pair_error(cmds, fc, 0) {
            Some(e) => Err(e),
            None => Ok(
                spec_update_levels(
                    m.vibrate_current@,
                    m.vibrate_steps@,
                    cmds,
                    match_all,
                    m.pattern_active,
                ),
            ),
        }
    }
}

/// The complete outcome [`GenericCommandManager::update_scalar`]
/// computes for a request.
pub open spec fn spec_scalar_result(
    m: GenericCommandManager,
    msg: ScalarCmd,
    match_all: bool,
) -> Result<(Seq<u32>, Option<Seq<Option<u32>>>), ButtplugDeviceError> {
    let cmds = spec_scalar_pairs(msg.scalars@);
    let fc = m.scalar_steps@.len() as int;
    if msg.scalars@.len() != fc {
        Err(ButtplugDeviceError::DeviceFeatureCountMismatch(fc as u32, msg.scalars@.len() as u32))
    } else {
        match spec_first_pair_error(cmds, fc, 0) {
            Some(e) => Err(e),
            None => Ok(
                spec_update_levels(
                    m.scalar_current@,
                    m.scalar_steps@,
                    cmds,
                    match_all,
                    m.pattern_active,
                ),
            ),
        }
    }
}

/// The complete outcome [`GenericCommandManager::update_rotation`]
/// computes for a request.
pub open spec fn spec_rotation_result(m: GenericCommandManager, msg: RotateCmd) -> Result<
    (Seq<(u32, bool)>, Seq<Option<(u32, bool)>>),
    ButtplugDeviceError,
> {
    let cmds = spec_rotate_triples(msg.rotations@);
    let fc = m.rotate_steps@.len() as int;
    if msg.rotations@.len() != fc {
        Err(
            ButtplugDeviceError::DeviceFeatureCountMismatch(
                fc as u32,
                msg.rotations@.len() as u32,
            ),
        )
    } else {
        match spec_first_triple_error(cmds, fc, 0) {
            Some(e) => Err(e),
            None => Ok(spec_update_rotations(m.rotate_current@, m.rotate_steps@, cmds)),
        }
    }
}

/// The zero-level vibrate subcommands for `n` features.
pub open spec fn spec_zero_vibrate_subcommands(n: int) -> Seq<VibrateSubcommand> {
    Seq::new(n as nat, |i: int| VibrateSubcommand { index: i as u32, speed: 0 })
}

/// The zero-level rotate subcommands for `n` features.
pub open spec fn spec_zero_rotate_subcommands(n: int) -> Seq<RotationSubcommand> {
    Seq::new(n as nat, |i: int| RotationSubcommand { index: i as u32, speed: 0, clockwise: false })
}

/// The zero-level scalar subcommands for `n` features.
pub open spec fn spec_zero_scalar_subcommands(n: int) -> Seq<ScalarSubcommand> {
    Seq::new(n as nat, |i: int| ScalarSubcommand { index: i as u32, scalar: 0 })
}

/// Exactly the state a freshly built command manager holds for a
/// resolved capability profile: the profile's step counts, all levels
/// zeroed, no pattern running.
pub open spec fn spec_is_fresh_manager(
    m: GenericCommandManager,
    attributes: ProtocolDeviceAttributes,
) -> bool {
    &&& m.vibrate_steps@ == match attributes.spec_message_attributes(
        ButtplugDeviceMessageType::VibrateCmd,
    ) {
        Some(a) => a.step_count,
        None => Seq::<u32>::empty(),
    }
    &&& m.vibrate_current@.len() == m.vibrate_steps@.len()
    &&& forall|i: int| 0 <= i < m.vibrate_current@.len() ==> #[trigger] m.vibrate_current@[i] == 0
    &&& m.rotate_steps@ == match attributes.spec_message_attributes(
        ButtplugDeviceMessageType::RotateCmd,
    ) {
        Some(a) => a.step_count,
        None => Seq::<u32>::empty(),
    }
    &&& m.rotate_current@.len() == m.rotate_steps@.len()
    &&& forall|i: int|
        0 <= i < m.rotate_current@.len() ==> #[trigger] m.rotate_current@[i] == (0u32, false)
    &&& m.scalar_steps@ == match attributes.spec_message_attributes(
        ButtplugDeviceMessageType::ScalarCmd,
    ) {
        Some(a) => a.step_count,
        None => Seq::<u32>::empty(),
    }
    &&& m.scalar_current@.len() == m.scalar_steps@.len()
    &&& forall|i: int| 0 <= i < m.scalar_current@.len() ==> #[trigger] m.scalar_current@[i] == 0
    &&& m.linear_count == match attributes.spec_message_attributes(
        ButtplugDeviceMessageType::LinearCmd,
    ) {
        Some(a) => a.feature_count,
        None => 0u32,
    }
    &&& !m.pattern_active
}

/// Everything of the manager except the stored vibrate levels is
/// unchanged between two states.
pub open spec fn spec_preserves_but_vibrate(
    old_m: GenericCommandManager,
    new_m: GenericCommandManager,
) -> bool {
    new_m == (GenericCommandManager { vibrate_current: new_m.vibrate_current, ..old_m })
}

/// Everything of the manager except the stored rotation state is
/// unchanged between two states.
pub open spec fn spec_preserves_but_rotate(
    old_m: GenericCommandManager,
    new_m: GenericCommandManager,
) -> bool {
    new_m == (GenericCommandManager { rotate_current: new_m.rotate_current, ..old_m })
}

/// The number of features a profile resolves for a command kind.
pub open spec fn spec_resolved_step_len(
    attributes: ProtocolDeviceAttributes,
    t: ButtplugDeviceMessageType,
) -> int {
    match attributes.spec_message_attributes(t) {
        Some(a) => a.step_count.len() as int,
        None => 0,
    }
}

/// Per-device command state: declared step counts and last-sent scaled
/// levels for each command kind the profile declares.
#[derive(Debug)]
pub struct GenericCommandManager {
    pub vibrate_steps: Vec<u32>,
    pub vibrate_current: Vec<u32>,
    pub rotate_steps: Vec<u32>,
    pub rotate_current: Vec<(u32, bool)>,
    pub scalar_steps: Vec<u32>,
    pub scalar_current: Vec<u32>,
    pub linear_count: u32,
    pub pattern_active: bool,
}

impl GenericCommandManager {
    /// Stored state matches the declared features, every step count is
    /// in range, and every stored level is within its feature's steps.
    pub open spec fn wf(self) -> bool {
        &&& self.vibrate_steps@.len() <= u32::MAX
        &&& self.rotate_steps@.len() <= u32::MAX
        &&& self.scalar_steps@.len() <= u32::MAX
        &&& self.vibrate_current@.len() == self.vibrate_steps@.len()
        &&& forall|i: int|
            0 <= i < self.vibrate_steps@.len() ==> 1 <= #[trigger] self.vibrate_steps@[i]
                <= MAX_STEP_COUNT
        &&& forall|i: int|
            0 <= i < self.vibrate_current@.len() ==> #[trigger] self.vibrate_current@[i]
                <= self.vibrate_steps@[i]
        &&& self.rotate_current@.len() == self.rotate_steps@.len()
        &&& forall|i: int|
            0 <= i < self.rotate_steps@.len() ==> 1 <= #[trigger] self.rotate_steps@[i]
                <= MAX_STEP_COUNT
        &&& forall|i: int|
            0 <= i < self.rotate_current@.len() ==> (#[trigger] self.rotate_current@[i]).0
                <= self.rotate_steps@[i]
        &&& self.scalar_current@.len() == self.scalar_steps@.len()
        &&& forall|i: int|
            0 <= i < self.scalar_steps@.len() ==> 1 <= #[trigger] self.scalar_steps@[i]
                <= MAX_STEP_COUNT
        &&& forall|i: int|
            0 <= i < self.scalar_current@.len() ==> #[trigger] self.scalar_current@[i]
                <= self.scalar_steps@[i]
    }

    /// Builds the state for a resolved capability profile: one zeroed
    /// slot per declared feature of each supported command kind.
    pub fn new(attributes: &ProtocolDeviceAttributes) -> (r: Self)
        requires
            attributes.wf(),
        ensures
            r.wf(),
            spec_is_fresh_manager(r, *attributes),
    {
        proof {
            lemma_resolved_attributes_wf(*attributes, ButtplugDeviceMessageType::VibrateCmd);
            lemma_resolved_attributes_wf(*attributes, ButtplugDeviceMessageType::RotateCmd);
            lemma_resolved_attributes_wf(*attributes, ButtplugDeviceMessageType::ScalarCmd);
        }
        let vibrate_steps: Vec<u32> = match attributes.message_attributes_for(
            ButtplugDeviceMessageType::VibrateCmd,
        ) {
            Some(a) => copy_u32_vec(&a.step_count),
            None => Vec::new(),
        };
        let rotate_steps: Vec<u32> = match attributes.message_attributes_for(
            ButtplugDeviceMessageType::RotateCmd,
        ) {
            Some(a) => copy_u32_vec(&a.step_count),
            None => Vec::new(),
        };
        let scalar_steps: Vec<u32> = match attributes.message_attributes_for(
            ButtplugDeviceMessageType::ScalarCmd,
        ) {
            Some(a) => copy_u32_vec(&a.step_count),
            None => Vec::new(),
        };
        let linear_count = attributes.feature_count_for(ButtplugDeviceMessageType::LinearCmd);
        let vibrate_current = zero_levels(vibrate_steps.len());
        let rotate_current = zero_rotations(rotate_steps.len());
        let scalar_current = zero_levels(scalar_steps.len());
        Self {
            vibrate_steps,
            vibrate_current,
            rotate_steps,
            rotate_current,
            scalar_steps,
            scalar_current,
            linear_count,
            pattern_active: false,
        }
    }

    /// Declared vibrate feature count.
    pub fn vibrate_feature_count(&self) -> (r: usize)
        ensures
            r == self.vibrate_steps@.len(),
    {
        self.vibrate_steps.len()
    }

    /// Declared rotate feature count.
    pub fn rotate_feature_count(&self) -> (r: usize)
        ensures
            r == self.rotate_steps@.len(),
    {
        self.rotate_steps.len()
    }

    /// Declared scalar feature count.
    pub fn scalar_feature_count(&self) -> (r: usize)
        ensures
            r == self.scalar_steps@.len(),
    {
        self.scalar_steps.len()
    }

    /// Marks the device as running a non-idempotent pattern; while
    /// set, every update re-sends all features.
    pub fn set_pattern_active(&mut self, active: bool)
        ensures
            *final(self) == (GenericCommandManager { pattern_active: active, ..*old(self) }),
    {
        self.pattern_active = active;
    }

    /// Validates and diffs one vibrate request. Returns `Ok(None)`
    /// when the request is redundant (nothing must be written),
    /// `Ok(Some(change_set))` otherwise, and the first validation
    /// error with the state untouched when the request is malformed.
    pub fn update_vibration(&mut self, msg: &VibrateCmd, match_all: bool) -> (r: Result<
        Option<Vec<Option<u32>>>,
        ButtplugDeviceError,
    >)
        requires
            old(self).wf(),
        ensures
            final(self).wf(),
            final(self).vibrate_steps == old(self).vibrate_steps,
            final(self).rotate_steps == old(self).rotate_steps,
            final(self).rotate_current == old(self).rotate_current,
            final(self).scalar_steps == old(self).scalar_steps,
            final(self).scalar_current == old(self).scalar_current,
            final(self).linear_count == old(self).linear_count,
            final(self).pattern_active == old(self).pattern_active,
            match spec_vibration_result(*old(self), *msg, match_all) {
                Err(e) => {
                    &&& r == Err::<Option<Vec<Option<u32>>>, ButtplugDeviceError>(e)
                    &&& final(self).vibrate_current == old(self).vibrate_current
                },
                Ok(result) => {
                    &&& final(self).vibrate_current@ == result.0
                    &&& match r {
                        Ok(out) => match (out, result.1) {
                            (Some(v), Some(s)) => v@ == s,
                            (None, None) => true,
                            _ => false,
                        },
                        Err(_) => false,
                    }
                },
            },
    {
        let fc = self.vibrate_steps.len();
        if msg.speeds.len() != fc {
            return Err(
                ButtplugDeviceError::DeviceFeatureCountMismatch(
                    fc as u32,
                    #[verifier::truncate] (msg.speeds.len() as u32),
                ),
            );
        }
        let pairs = vibrate_pairs(&msg.speeds);
        let validation = validate_pairs(&pairs, fc);
        if let Some(e) = validation {
            return Err(e);
        }
        let out = update_levels_core(
            &self.vibrate_steps,
            &mut self.vibrate_current,
            &pairs,
            match_all,
            self.pattern_active,
        );
        Ok(out)
    }

    /// Validates and diffs one scalar request, exactly as
    /// [`Self::update_vibration`] does for vibrate requests.
    pub fn update_scalar(&mut self, msg: &ScalarCmd, match_all: bool) -> (r: Result<
        Option<Vec<Option<u32>>>,
        ButtplugDeviceError,
    >)
        requires
            old(self).wf(),
        ensures
            final(self).wf(),
            final(self).vibrate_steps == old(self).vibrate_steps,
            final(self).vibrate_current == old(self).vibrate_current,
            final(self).rotate_steps == old(self).rotate_steps,
            final(self).rotate_current == old(self).rotate_current,
            final(self).scalar_steps == old(self).scalar_steps,
            final(self).linear_count == old(self).linear_count,
            final(self).pattern_active == old(self).pattern_active,
            match spec_scalar_result(*old(self), *msg, match_all) {
                Err(e) => {
                    &&& r == Err::<Option<Vec<Option<u32>>>, ButtplugDeviceError>(e)
                    &&& final(self).scalar_current == old(self).scalar_current
                },
                Ok(result) => {
                    &&& final(self).scalar_current@ == result.0
                    &&& match r {
                        Ok(out) => match (out, result.1) {
                            (Some(v), Some(s)) => v@ == s,
                            (None, None) => true,
                            _ => false,
                        },
                        Err(_) => false,
                    }
                },
            },
    {
        let fc = self.scalar_steps.len();
        if msg.scalars.len() != fc {
            return Err(
                ButtplugDeviceError::DeviceFeatureCountMismatch(
                    fc as u32,
                    #[verifier::truncate] (msg.scalars.len() as u32),
                ),
            );
        }
        let pairs = scalar_pairs(&msg.scalars);
        let validation = validate_pairs(&pairs, fc);
        if let Some(e) = validation {
            return Err(e);
        }
        let out = update_levels_core(
            &self.scalar_steps,
            &mut self.scalar_current,
            &pairs,
            match_all,
            self.pattern_active,
        );
        Ok(out)
    }

    /// Validates and diffs one rotate request. Each entry of the
    /// result carries a value only when that feature's scaled speed or
    /// direction changed.
    pub fn update_rotation(&mut self, msg: &RotateCmd) -> (r: Result<
        Vec<Option<(u32, bool)>>,
        ButtplugDeviceError,
    >)
        requires
            old(self).wf(),
        ensures
            final(self).wf(),
            final(self).vibrate_steps == old(self).vibrate_steps,
            final(self).vibrate_current == old(self).vibrate_current,
            final(self).rotate_steps == old(self).rotate_steps,
            final(self).scalar_steps == old(self).scalar_steps,
            final(self).scalar_current == old(self).scalar_current,
            final(self).linear_count == old(self).linear_count,
            final(self).pattern_active == old(self).pattern_active,
            match spec_rotation_result(*old(self), *msg) {
                Err(e) => {
                    &&& r == Err::<Vec<Option<(u32, bool)>>, ButtplugDeviceError>(e)
                    &&& final(self).rotate_current == old(self).rotate_current
                },
                Ok(result) => {
                    &&& final(self).rotate_current@ == result.0
                    &&& match r {
                        Ok(out) => out@ == result.1,
                        Err(_) => false,
                    }
                },
            },
    {
        let fc = self.rotate_steps.len();
        if msg.rotations.len() != fc {
            return Err(
                ButtplugDeviceError::DeviceFeatureCountMismatch(
                    fc as u32,
                    #[verifier::truncate] (msg.rotations.len() as u32),
                ),
            );
        }
        let triples = rotate_triples(&msg.rotations);
        let validation = validate_triples(&triples, fc);
        if let Some(e) = validation {
            return Err(e);
        }
        let out = update_rotations_core(&self.rotate_steps, &mut self.rotate_current, &triples);
        Ok(out)
    }

    /// One generated command per declared command kind that drives all
    /// its features to the neutral value.
    pub fn stop_commands(&self) -> (r: Vec<ButtplugDeviceCommandMessageUnion>)
        requires
            self.wf(),
        ensures
            spec_is_stop_commands(
                r@,
                self.vibrate_steps@.len() as int,
                self.rotate_steps@.len() as int,
                self.scalar_steps@.len() as int,
            ),
    {
        let mut r: Vec<ButtplugDeviceCommandMessageUnion> = Vec::new();
        if self.vibrate_steps.len() > 0 {
            let n = self.vibrate_steps.len();
            let mut subs: Vec<VibrateSubcommand> = Vec::new();
            let mut i: usize = 0;
            while i < n
                invariant
                    0 <= i <= n,
                    n <= u32::MAX,
                    subs@ =~= spec_zero_vibrate_subcommands(n as int).take(i as int),
                decreases n - i,
            {
                subs.push(VibrateSubcommand { index: i as u32, speed: 0 });
                i = i + 1;
            }
            proof {
                assert(subs@ =~= spec_zero_vibrate_subcommands(n as int));
            }
            r.push(
                ButtplugDeviceCommandMessageUnion::VibrateCmd(
                    VibrateCmd { id: 1, device_index: 0, speeds: subs },
                ),
            );
        }
        if self.rotate_steps.len() > 0 {
            let n = self.rotate_steps.len();
            let mut subs: Vec<RotationSubcommand> = Vec::new();
            let mut i: usize = 0;
            while i < n
                invariant
                    0 <= i <= n,
                    n <= u32::MAX,
                    subs@ =~= spec_zero_rotate_subcommands(n as int).take(i as int),
                decreases n - i,
            {
                subs.push(RotationSubcommand { index: i as u32, speed: 0, clockwise: false });
                i = i + 1;
            }
            proof {
                assert(subs@ =~= spec_zero_rotate_subcommands(n as int));
            }
            r.push(
                ButtplugDeviceCommandMessageUnion::RotateCmd(
                    RotateCmd { id: 1, device_index: 0, rotations: subs },
                ),
            );
        }
        if self.scalar_steps.len() > 0 {
            let n = self.scalar_steps.len();
            let mut subs: Vec<ScalarSubcommand> = Vec::new();
            let mut i: usize = 0;
            while i < n
                invariant
                    0 <= i <= n,
                    n <= u32::MAX,
                    subs@ =~= spec_zero_scalar_subcommands(n as int).take(i as int),
                decreases n - i,
            {
                subs.push(ScalarSubcommand { index: i as u32, scalar: 0 });
                i = i + 1;
            }
            proof {
                assert(subs@ =~= spec_zero_scalar_subcommands(n as int));
            }
            r.push(
                ButtplugDeviceCommandMessageUnion::ScalarCmd(
                    ScalarCmd { id: 1, device_index: 0, scalars: subs },
                ),
            );
        }
        r
    }
}

/// Exactly the generated stop commands for the given declared feature
/// counts: one zero-level command per declared kind, in a fixed kind
/// order.
pub open spec fn spec_is_stop_commands(
    r: Seq<ButtplugDeviceCommandMessageUnion>,
    vibrate_count: int,
    rotate_count: int,
    scalar_count: int,
) -> bool {
    let nv: int = if vibrate_count > 0 { 1int } else { 0int };
    let nr: int = if rotate_count > 0 { 1int } else { 0int };
    let ns: int = if scalar_count > 0 { 1int } else { 0int };
    &&& r.len() == nv + nr + ns
    &&& vibrate_count > 0 ==> match r[0] {
        ButtplugDeviceCommandMessageUnion::VibrateCmd(m) => m.id == 1 && m.device_index == 0
            && m.speeds@ == spec_zero_vibrate_subcommands(vibrate_count),
        _ => false,
    }
    &&& rotate_count > 0 ==> match r[nv] {
        ButtplugDeviceCommandMessageUnion::RotateCmd(m) => m.id == 1 && m.device_index == 0
            && m.rotations@ == spec_zero_rotate_subcommands(rotate_count),
        _ => false,
    }
    &&& scalar_count > 0 ==> match r[nv + nr] {
        ButtplugDeviceCommandMessageUnion::ScalarCmd(m) => m.id == 1 && m.device_index == 0
            && m.scalars@ == spec_zero_scalar_subcommands(scalar_count),
        _ => false,
    }
}

/// A resolved profile entry of a well-formed profile is itself well
/// formed: one step count per feature, each within range.
pub proof fn lemma_resolved_attributes_wf(
    attributes: ProtocolDeviceAttributes,
    t: ButtplugDeviceMessageType,
)
    requires
        attributes.wf(),
    ensures
        match attributes.spec_message_attributes(t) {
            Some(a) => {
                &&& a.step_count.len() == a.feature_count
                &&& forall|i: int|
                    0 <= i < a.step_count.len() ==> 1 <= #[trigger] a.step_count[i]
                        <= MAX_STEP_COUNT
            },
            None => true,
        },
    decreases attributes,
{
    lemma_message_type_lookup_member(attributes.message_attributes@, t);
    match attributes.parent {
        Some(p) => {
            lemma_resolved_attributes_wf(*p, t);
        },
        None => {},
    }
}

/// A successful attribute lookup returns one of the list's entries.
proof fn lemma_message_type_lookup_member(
    s: Seq<(ButtplugDeviceMessageType, crate::configuration::DeviceMessageAttributes)>,
    t: ButtplugDeviceMessageType,
)
    ensures
        match crate::configuration::message_type_lookup(s, t) {
            Some(a) => exists|i: int| 0 <= i < s.len() && (#[trigger] s[i]).1 == a,
            None => true,
        },
    decreases s.len(),
{
    if s.len() > 0 {
        if s[0].0 == t {
        } else {
            lemma_message_type_lookup_member(s.drop_first(), t);
            match crate::configuration::message_type_lookup(s.drop_first(), t) {
                Some(a) => {
                    let i = choose|i: int|
                        0 <= i < s.drop_first().len() && (#[trigger] s.drop_first()[i]).1 == a;
                    assert(s[i + 1].1 == a);
                },
                None => {},
            }
        }
    }
}

/// A vector of `n` zeroed levels.
fn zero_levels(n: usize) -> (r: Vec<u32>)
    ensures
        r@.len() == n,
        forall|i: int| 0 <= i < n ==> #[trigger] r@[i] == 0,
{
    let mut r: Vec<u32> = Vec::new();
    let mut i: usize = 0;
    while i < n
        invariant
            0 <= i <= n,
            r@.len() == i,
            forall|j: int| 0 <= j < i ==> #[trigger] r@[j] == 0,
        decreases n - i,
    {
        r.push(0);
        i = i + 1;
    }
    r
}

/// A vector of `n` zeroed rotation states.
fn zero_rotations(n: usize) -> (r: Vec<(u32, bool)>)
    ensures
        r@.len() == n,
        forall|i: int| 0 <= i < n ==> #[trigger] r@[i] == (0u32, false),
{
    let mut r: Vec<(u32, bool)> = Vec::new();
    let mut i: usize = 0;
    while i < n
        invariant
            0 <= i <= n,
            r@.len() == i,
            forall|j: int| 0 <= j < i ==> #[trigger] r@[j] == (0u32, false),
        decreases n - i,
    {
        r.push((0, false));
        i = i + 1;
    }
    r
}

/// Extracts the (index, level) pairs of a vibrate request.
fn vibrate_pairs(speeds: &Vec<VibrateSubcommand>) -> (r: Vec<(u32, u32)>)
    ensures
        r@ == spec_vibrate_pairs(speeds@),
{
    let n = speeds.len();
    let mut r: Vec<(u32, u32)> = Vec::new();
    let mut i: usize = 0;
    while i < n
        invariant
            n == speeds@.len(),
            0 <= i <= n,
            r@ =~= spec_vibrate_pairs(speeds@.take(i as int)),
        decreases n - i,
    {
        r.push((speeds[i].index, speeds[i].speed));
        proof {
            assert(r@ =~= spec_vibrate_pairs(speeds@.take(i as int + 1)));
        }
        i = i + 1;
    }
    proof {
        assert(speeds@.take(n as int) =~= speeds@);
    }
    r
}

/// Extracts the (index, level) pairs of a scalar request.
fn scalar_pairs(scalars: &Vec<ScalarSubcommand>) -> (r: Vec<(u32, u32)>)
    ensures
        r@ == spec_scalar_pairs(scalars@),
{
    let n = scalars.len();
    let mut r: Vec<(u32, u32)> = Vec::new();
    let mut i: usize = 0;
    while i < n
        invariant
            n == scalars@.len(),
            0 <= i <= n,
            r@ =~= spec_scalar_pairs(scalars@.take(i as int)),
        decreases n - i,
    {
        r.push((scalars[i].index, scalars[i].scalar));
        proof {
            assert(r@ =~= spec_scalar_pairs(scalars@.take(i as int + 1)));
        }
        i = i + 1;
    }
    proof {
        assert(scalars@.take(n as int) =~= scalars@);
    }
    r
}

/// Extracts the (index, level, direction) triples of a rotate request.
fn rotate_triples(rotations: &Vec<RotationSubcommand>) -> (r: Vec<(u32, u32, bool)>)
    ensures
        r@ == spec_rotate_triples(rotations@),
{
    let n = rotations.len();
    let mut r: Vec<(u32, u32, bool)> = Vec::new();
    let mut i: usize = 0;
    while i < n
        invariant
            n == rotations@.len(),
            0 <= i <= n,
            r@ =~= spec_rotate_triples(rotations@.take(i as int)),
        decreases n - i,
    {
        r.push((rotations[i].index, rotations[i].speed, rotations[i].clockwise));
        proof {
            assert(r@ =~= spec_rotate_triples(rotations@.take(i as int + 1)));
        }
        i = i + 1;
    }
    proof {
        assert(rotations@.take(n as int) =~= rotations@);
    }
    r
}

/// Scans a level request for its first validation error.
fn validate_pairs(cmds: &Vec<(u32, u32)>, feature_count: usize) -> (r: Option<ButtplugDeviceError>)
    requires
        feature_count <= u32::MAX,
    ensures
        r == spec_first_pair_error(cmds@, feature_count as int, 0),
        r is None ==> spec_pairs_valid(cmds@, feature_count as int),
{
    let n = cmds.len();
    let mut i: usize = 0;
    while i < n
        invariant
            n == cmds@.len(),
            feature_count <= u32::MAX,
            0 <= i <= n,
            spec_first_pair_error(cmds@, feature_count as int, 0) == spec_first_pair_error(
                cmds@,
                feature_count as int,
                i as int,
            ),
            forall|j: int|
                0 <= j < i ==> (#[trigger] cmds@[j]).0 < feature_count && cmds@[j].1
                    <= LEVEL_SCALE,
        decreases n - i,
    {
        let (idx, level) = cmds[i];
        if idx as usize >= feature_count {
            return Some(
                ButtplugDeviceError::DeviceFeatureIndexError(feature_count as u32, idx),
            );
        }
        if level > LEVEL_SCALE {
            return Some(ButtplugDeviceError::InvalidValue(idx, level));
        }
        i = i + 1;
    }
    None
}

/// Scans a rotate request for its first validation error.
fn validate_triples(cmds: &Vec<(u32, u32, bool)>, feature_count: usize) -> (r: Option<
    ButtplugDeviceError,
>)
    requires
        feature_count <= u32::MAX,
    ensures
        r == spec_first_triple_error(cmds@, feature_count as int, 0),
        r is None ==> spec_triples_valid(cmds@, feature_count as int),
{
    let n = cmds.len();
    let mut i: usize = 0;
    while i < n
        invariant
            n == cmds@.len(),
            feature_count <= u32::MAX,
            0 <= i <= n,
            spec_first_triple_error(cmds@, feature_count as int, 0) == spec_first_triple_error(
                cmds@,
                feature_count as int,
                i as int,
            ),
            forall|j: int|
                0 <= j < i ==> (#[trigger] cmds@[j]).0 < feature_count && cmds@[j].1
                    <= LEVEL_SCALE,
        decreases n - i,
    {
        let (idx, level, _) = cmds[i];
        if idx as usize >= feature_count {
            return Some(
                ButtplugDeviceError::DeviceFeatureIndexError(feature_count as u32, idx),
            );
        }
        if level > LEVEL_SCALE {
            return Some(ButtplugDeviceError::InvalidValue(idx, level));
        }
        i = i + 1;
    }
    None
}

/// Applies a validated level request to the stored state and builds
/// the change set.
fn update_levels_core(
    steps: &Vec<u32>,
    current: &mut Vec<u32>,
    cmds: &Vec<(u32, u32)>,
    match_all: bool,
    pattern_active: bool,
) -> (r: Option<Vec<Option<u32>>>)
    requires
        old(current)@.len() == steps@.len(),
        forall|i: int| 0 <= i < steps@.len() ==> 1 <= #[trigger] steps@[i] <= MAX_STEP_COUNT,
        forall|i: int| 0 <= i < old(current)@.len() ==> #[trigger] old(current)@[i] <= steps@[i],
        spec_pairs_valid(cmds@, steps@.len() as int),
    ensures
        final(current)@.len() == steps@.len(),
        forall|i: int| 0 <= i < final(current)@.len() ==> #[trigger] final(current)@[i] <= steps@[i],
        ({
            let result = spec_update_levels(
                old(current)@,
                steps@,
                cmds@,
                match_all,
                pattern_active,
            );
            &&& final(current)@ == result.0
            &&& match (r, result.1) {
                (Some(v), Some(s)) => v@ == s,
                (None, None) => true,
                _ => false,
            }
        }),
{
    let n = current.len();
    let ghost oldcur = current@;
    let mut newcur = copy_u32_vec(current);
    let m = cmds.len();
    let mut k: usize = 0;
    proof {
        assert(cmds@.take(0) =~= Seq::<(u32, u32)>::empty());
    }
    while k < m
        invariant
            m == cmds@.len(),
            n == steps@.len(),
            n == oldcur.len(),
            forall|i: int| 0 <= i < steps@.len() ==> 1 <= #[trigger] steps@[i] <= MAX_STEP_COUNT,
            spec_pairs_valid(cmds@, n as int),
            0 <= k <= m,
            newcur@ == spec_apply_levels(oldcur, steps@, cmds@.take(k as int)),
        decreases m - k,
    {
        proof {
            assert(spec_pairs_valid(cmds@.take(k as int), n as int)) by {
                assert(forall|j: int|
                    0 <= j < k ==> #[trigger] cmds@.take(k as int)[j] == cmds@[j]);
            }
            lemma_apply_levels_len(oldcur, steps@, cmds@.take(k as int));
        }
        let (idx, level) = cmds[k];
        let scaled = scale_level(level, steps[idx as usize]);
        newcur.set(idx as usize, scaled);
        proof {
            assert(cmds@.take(k as int).push(cmds@[k as int]) =~= cmds@.take(k as int + 1));
            lemma_apply_levels_snoc(oldcur, steps@, cmds@.take(k as int), cmds@[k as int]);
        }
        k = k + 1;
    }
    proof {
        assert(cmds@.take(m as int) =~= cmds@);
        lemma_apply_levels_len(oldcur, steps@, cmds@);
        assert forall|i: int| 0 <= i < newcur@.len() implies #[trigger] newcur@[i] <= steps@[i] by {
            lemma_apply_levels_pointwise(oldcur, steps@, cmds@, i);
            match spec_last_level(cmds@, i) {
                Some(l) => {
                    assert(l <= LEVEL_SCALE) by {
                        lemma_last_level_valid(cmds@, i, n as int);
                    }
                    lemma_scale_level_le_steps(l, steps@[i]);
                },
                None => {},
            }
        }
    }
    let mut changed = false;
    let mut i: usize = 0;
    while i < n
        invariant
            n == newcur@.len(),
            n == current@.len(),
            current@ == oldcur,
            0 <= i <= n,
            changed == exists|j: int| 0 <= j < i && newcur@[j] != #[trigger] current@[j],
        decreases n - i,
    {
        if newcur[i] != current[i] {
            proof {
                assert(newcur@[i as int] != current@[i as int]);
            }
            changed = true;
        }
        i = i + 1;
    }
    if !changed && !pattern_active {
        proof {
            assert(newcur@ =~= oldcur);
        }
        return None;
    }
    proof {
        if !(newcur@ == oldcur && !pattern_active) {
        } else {
            let j = choose|j: int| 0 <= j < n && newcur@[j] != oldcur[j];
            assert(false);
        }
    }
    let mut out: Vec<Option<u32>> = Vec::new();
    let mut i: usize = 0;
    let ghost result = spec_update_levels(oldcur, steps@, cmds@, match_all, pattern_active);
    while i < n
        invariant
            n == newcur@.len(),
            n == current@.len(),
            current@ == oldcur,
            0 <= i <= n,
            out@.len() == i,
            forall|j: int|
                0 <= j < i ==> #[trigger] out@[j] == if newcur@[j] != oldcur[j] || match_all
                    || pattern_active {
                    Some(newcur@[j])
                } else {
                    None::<u32>
                },
        decreases n - i,
    {
        if newcur[i] != current[i] || match_all || pattern_active {
            out.push(Some(newcur[i]));
        } else {
            out.push(None);
        }
        i = i + 1;
    }
    *current = newcur;
    proof {
        assert(result.0 == current@);
        assert(out@ =~= result.1->Some_0);
    }
    Some(out)
}

/// A request with no validation error only asks levels within full
/// scale, so the last level addressing any slot is within scale.
proof fn lemma_last_level_valid(cmds: Seq<(u32, u32)>, idx: int, feature_count: int)
    requires
        spec_pairs_valid(cmds, feature_count),
    ensures
        match spec_last_level(cmds, idx) {
            Some(l) => l <= LEVEL_SCALE,
            None => true,
        },
    decreases cmds.len(),
{
    if cmds.len() > 0 {
        if cmds.last().0 == idx {
        } else {
            assert(spec_pairs_valid(cmds.drop_last(), feature_count)) by {
                assert(forall|j: int|
                    0 <= j < cmds.drop_last().len() ==> #[trigger] cmds.drop_last()[j]
                        == cmds[j]);
            }
            lemma_last_level_valid(cmds.drop_last(), idx, feature_count);
        }
    }
}

/// Applies a validated rotate request to the stored state and builds
/// the per-feature change list.
fn update_rotations_core(
    steps: &Vec<u32>,
    current: &mut Vec<(u32, bool)>,
    cmds: &Vec<(u32, u32, bool)>,
) -> (r: Vec<Option<(u32, bool)>>)
    requires
        old(current)@.len() == steps@.len(),
        forall|i: int| 0 <= i < steps@.len() ==> 1 <= #[trigger] steps@[i] <= MAX_STEP_COUNT,
        forall|i: int|
            0 <= i < old(current)@.len() ==> (#[trigger] old(current)@[i]).0 <= steps@[i],
        spec_triples_valid(cmds@, steps@.len() as int),
    ensures
        final(current)@.len() == steps@.len(),
        forall|i: int|
            0 <= i < final(current)@.len() ==> (#[trigger] final(current)@[i]).0 <= steps@[i],
        ({
            let result = spec_update_rotations(old(current)@, steps@, cmds@);
            &&& final(current)@ == result.0
            &&& r@ == result.1
        }),
{
    let n = current.len();
    let ghost oldcur = current@;
    let mut newcur: Vec<(u32, bool)> = Vec::new();
    let mut c: usize = 0;
    while c < n
        invariant
            n == current@.len(),
            0 <= c <= n,
            newcur@ =~= current@.take(c as int),
        decreases n - c,
    {
        newcur.push(current[c]);
        c = c + 1;
    }
    proof {
        assert(newcur@ =~= oldcur);
    }
    let m = cmds.len();
    let mut k: usize = 0;
    proof {
        assert(cmds@.take(0) =~= Seq::<(u32, u32, bool)>::empty());
    }
    while k < m
        invariant
            m == cmds@.len(),
            n == steps@.len(),
            n == oldcur.len(),
            forall|i: int| 0 <= i < steps@.len() ==> 1 <= #[trigger] steps@[i] <= MAX_STEP_COUNT,
            spec_triples_valid(cmds@, n as int),
            0 <= k <= m,
            newcur@ == spec_apply_rotations(oldcur, steps@, cmds@.take(k as int)),
        decreases m - k,
    {
        proof {
            assert(spec_triples_valid(cmds@.take(k as int), n as int)) by {
                assert(forall|j: int|
                    0 <= j < k ==> #[trigger] cmds@.take(k as int)[j] == cmds@[j]);
            }
            lemma_apply_rotations_len(oldcur, steps@, cmds@.take(k as int));
        }
        let (idx, level, clockwise) = cmds[k];
        let scaled = scale_level(level, steps[idx as usize]);
        newcur.set(idx as usize, (scaled, clockwise));
        proof {
            assert(cmds@.take(k as int).push(cmds@[k as int]) =~= cmds@.take(k as int + 1));
            lemma_apply_rotations_snoc(oldcur, steps@, cmds@.take(k as int), cmds@[k as int]);
        }
        k = k + 1;
    }
    proof {
        assert(cmds@.take(m as int) =~= cmds@);
        lemma_apply_rotations_len(oldcur, steps@, cmds@);
    }
    let mut out: Vec<Option<(u32, bool)>> = Vec::new();
    let mut i: usize = 0;
    while i < n
        invariant
            n == newcur@.len(),
            n == current@.len(),
            current@ == oldcur,
            0 <= i <= n,
            out@.len() == i,
            forall|j: int|
                0 <= j < i ==> #[trigger] out@[j] == if newcur@[j] != oldcur[j] {
                    Some(newcur@[j])
                } else {
                    None::<(u32, bool)>
                },
        decreases n - i,
    {
        if newcur[i].0 != current[i].0 || newcur[i].1 != current[i].1 {
            proof {
                assert(newcur@[i as int] != oldcur[i as int]);
            }
            out.push(Some(newcur[i]));
        } else {
            proof {
                assert(newcur@[i as int] == oldcur[i as int]);
            }
            out.push(None);
        }
        i = i + 1;
    }
    let ghost result = spec_update_rotations(oldcur, steps@, cmds@);
    proof {
        assert forall|i: int|
            0 <= i < newcur@.len() implies (#[trigger] newcur@[i]).0 <= steps@[i] by {
            lemma_rotation_bounds(oldcur, steps@, cmds@, i);
        }
        assert(out@ =~= result.1);
    }
    *current = newcur;
    out
}

/// Applied rotation state stays within each feature's step bound.
proof fn lemma_rotation_bounds(
    current: Seq<(u32, bool)>,
    steps: Seq<u32>,
    cmds: Seq<(u32, u32, bool)>,
    i: int,
)
    requires
        0 <= i < current.len(),
        current.len() == steps.len(),
        forall|j: int| 0 <= j < steps.len() ==> 1 <= #[trigger] steps[j] <= MAX_STEP_COUNT,
        forall|j: int| 0 <= j < current.len() ==> (#[trigger] current[j]).0 <= steps[j],
        spec_triples_valid(cmds, current.len() as int),
    ensures
        spec_apply_rotations(current, steps, cmds)[i].0 <= steps[i],
    decreases cmds.len(),
{
    lemma_apply_rotations_len(current, steps, cmds);
    if cmds.len() > 0 {
        let c2 = current.update(
            cmds[0].0 as int,
            (spec_scale_level(cmds[0].1, steps[cmds[0].0 as int]), cmds[0].2),
        );
        assert(forall|j: int|
            0 <= j < cmds.drop_first().len() ==> #[trigger] cmds.drop_first()[j] == cmds[j + 1]);
        assert(spec_triples_valid(cmds.drop_first(), current.len() as int));
        lemma_scale_level_le_steps(cmds[0].1, steps[cmds[0].0 as int]);
        lemma_rotation_bounds(c2, steps, cmds.drop_first(), i);
    }
}

} // verus!
