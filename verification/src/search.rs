//! The angle search: a first-in, first-out frontier of candidate angles,
//! each tested with one ray.

use crate::mask::{Frame, FrameView};
use crate::drive::Pathfinder;
use crate::proximity::{
    lemma_line_at_top_struck_ahead, lemma_right_angle_clear, line_at_top, ray_dist, ray_hit,
    TrackObject,
};
use crate::tangent::{is_steering_angle, Angle};
use std::collections::{HashSet, VecDeque};
use vstd::prelude::*;
use vstd::set_lib::lemma_len_subset;

verus! {

broadcast use vstd::std_specs::hash::group_hash_axioms;

/// Degrees between one candidate angle and the next.
pub const ANGLE_STEP: i64 = 5;

/// A finish line nearer than this many pixels stops the vehicle.
pub const FINISH_STOP_DIST: u32 = 10;

/// Only an object nearer than this many pixels can become the best found.
pub const BEST_DIST_LIMIT: u32 = 150;

/// The first angle not in `seen` among `from`, `from + 5`, `from + 10` and
/// so on, where `seen` holds steering angles only: none of them beyond
/// 90 is looked up.
pub open spec fn skip_seen_up(seen: Set<i64>, from: int) -> int
    decreases 95 - from,
{
    if from <= 90 && seen.contains(from as i64) {
        skip_seen_up(seen, from + ANGLE_STEP)
    } else {
        from
    }
}

/// The first angle not in `seen` among `from`, `from - 5`, `from - 10` and
/// so on, where `seen` holds steering angles only: none of them below
/// -90 is looked up.
pub open spec fn skip_seen_down(seen: Set<i64>, from: int) -> int
    decreases from + 95,
{
    if from >= -90 && seen.contains(from as i64) {
        skip_seen_down(seen, from - ANGLE_STEP)
    } else {
        from
    }
}

/// The angles to test next after the ray at `angle` struck `object`, given
/// the angles already tested.
///
/// A left line proposes the next untested angle to the right, in steps of
/// five degrees, if it is at most 90. A right line proposes the next
/// untested angle to the left if it is at least -90. A finish line proposes
/// nothing. An obstacle looks both ways but proposes the angle to the left
/// for either: once if that angle is at least -90, and once more if the
/// angle to the right is at most 90.
pub open spec fn next_angles(seen: Set<i64>, angle: int, object: TrackObject) -> Seq<i64> {
    let up = skip_seen_up(seen, angle + ANGLE_STEP);
    let down = skip_seen_down(seen, angle - ANGLE_STEP);
    match object {
        TrackObject::FinishLine(_) => Seq::empty(),
        TrackObject::LeftLine(_) => if up <= 90 {
            seq![up as i64]
        } else {
            Seq::empty()
        },
        TrackObject::RightLine(_) => if down >= -90 {
            seq![down as i64]
        } else {
            Seq::empty()
        },
        TrackObject::Obstacle(_) => {
            let first = if down >= -90 {
                seq![down as i64]
            } else {
                Seq::empty()
            };
            let second = if up <= 90 {
                seq![down as i64]
            } else {
                Seq::empty()
            };
            first + second
        },
    }
}

/// What the search knows between two rays.
pub struct SearchState {
    /// Angles still to be tested, the next one first.
    pub frontier: Seq<i64>,
    /// Angles already tested.
    pub seen: Set<i64>,
    /// The angle whose ray travelled furthest so far; zero until one counted.
    pub best_angle: i64,
    /// How far that ray travelled; nothing until one counted.
    pub max_dist: Option<u32>,
}

/// The search after some number of rays: still under way, or finished with
/// the angle to steer by and whether the vehicle is to stop.
pub enum SearchStep {
    Running(SearchState),
    Done { angle: i64, stop: bool },
}

/// The search begins with straight ahead as its only candidate.
pub open spec fn search_start() -> SearchState {
    SearchState { frontier: seq![0i64], seen: Set::empty(), best_angle: 0, max_dist: None }
}

/// Whether an object at distance `dist` replaces the best found so far: it
/// must be nearer than 150 pixels and strictly further than the best.
pub open spec fn improves(max_dist: Option<u32>, dist: u32) -> bool {
    dist < BEST_DIST_LIMIT && match max_dist {
        Some(best) => dist > best,
        None => true,
    }
}

/// One step of the search: take the first candidate off the frontier, mark
/// it tested and cast its ray.
///
/// An empty frontier ends the search with the best angle found. A clear ray
/// ends it with the candidate itself. A finish line nearer than ten pixels
/// ends it with the best angle found and the order to stop; one further away
/// is passed over. Any other object may become the best found, and its
/// proposals join the back of the frontier; if it proposes nothing the
/// search ends with the best angle found.
pub open spec fn search_step(frame: FrameView, state: SearchState) -> SearchStep {
    if state.frontier.len() == 0 {
        SearchStep::Done { angle: state.best_angle, stop: false }
    } else {
        let angle = state.frontier[0];
        let rest = state.frontier.subrange(1, state.frontier.len() as int);
        let seen = state.seen.insert(angle);
        match ray_hit(frame, angle as int) {
            None => SearchStep::Done { angle, stop: false },
            Some(TrackObject::FinishLine(dist)) => if dist < FINISH_STOP_DIST {
                SearchStep::Done { angle: state.best_angle, stop: true }
            } else {
                SearchStep::Running(
                    SearchState {
                        frontier: rest,
                        seen,
                        best_angle: state.best_angle,
                        max_dist: state.max_dist,
                    },
                )
            },
            Some(object) => {
                let better = improves(state.max_dist, object.spec_dist());
                let best_angle = if better {
                    angle
                } else {
                    state.best_angle
                };
                let max_dist = if better {
                    Some(object.spec_dist())
                } else {
                    state.max_dist
                };
                let proposals = next_angles(seen, angle as int, object);
                if proposals.len() == 0 {
                    SearchStep::Done { angle: best_angle, stop: false }
                } else {
                    SearchStep::Running(
                        SearchState { frontier: rest + proposals, seen, best_angle, max_dist },
                    )
                }
            },
        }
    }
}

/// The search on `frame` after `steps` steps; once finished it stays so.
pub open spec fn search_run(frame: FrameView, steps: nat) -> SearchStep
    decreases steps,
{
    if steps == 0 {
        SearchStep::Running(search_start())
    } else {
        match search_run(frame, (steps - 1) as nat) {
            SearchStep::Running(state) => search_step(frame, state),
            done => done,
        }
    }
}

/// Whether the search on `frame` finishes with this angle and this order.
pub open spec fn search_ends_with(frame: FrameView, angle: i64, stop: bool) -> bool {
    exists|steps: nat| #[trigger] search_run(frame, steps) == (SearchStep::Done { angle, stop })
}

/// A finished search stays finished with the same result.
pub proof fn lemma_search_stays_done(frame: FrameView, steps: nat, later: nat)
    requires
        steps <= later,
        search_run(frame, steps) is Done,
    ensures
        search_run(frame, later) == search_run(frame, steps),
    decreases later,
{
    if steps < later {
        lemma_search_stays_done(frame, steps, (later - 1) as nat);
    }
}

/// The search on a frame has one result: if it ends with one angle and
/// order, it ends with no other.
pub proof fn lemma_search_result_unique(
    frame: FrameView,
    angle: i64,
    stop: bool,
    other_angle: i64,
    other_stop: bool,
)
    requires
        search_ends_with(frame, angle, stop),
        search_ends_with(frame, other_angle, other_stop),
    ensures
        angle == other_angle,
        stop == other_stop,
{
    let steps = choose|steps: nat| #[trigger]
        search_run(frame, steps) == (SearchStep::Done { angle, stop });
    let other_steps = choose|steps: nat| #[trigger]
        search_run(frame, steps) == (SearchStep::Done { angle: other_angle, stop: other_stop });
    if steps <= other_steps {
        lemma_search_stays_done(frame, steps, other_steps);
    } else {
        lemma_search_stays_done(frame, other_steps, steps);
    }
}

/// Where the ray straight ahead is clear the search chooses straight ahead,
/// whatever lies to the sides.
pub proof fn lemma_clear_ahead_goes_straight(frame: FrameView)
    requires
        ray_hit(frame, 0) is None,
    ensures
        search_ends_with(frame, 0, false),
{
    assert(search_run(frame, 0) == SearchStep::Running(search_start()));
    assert(search_run(frame, 1) == search_step(frame, search_start()));
}

/// A finish line struck straight ahead nearer than ten pixels ends the
/// search at once: it orders the stop, proposes no further candidate and
/// keeps the angle at straight ahead.
pub proof fn lemma_near_finish_stops(frame: FrameView, dist: u32)
    requires
        ray_hit(frame, 0) == Some(TrackObject::FinishLine(dist)),
        dist < FINISH_STOP_DIST,
    ensures
        search_ends_with(frame, 0, true),
{
    assert(search_run(frame, 0) == SearchStep::Running(search_start()));
    assert(search_run(frame, 1) == search_step(frame, search_start()));
}

/// A finish line struck straight ahead at ten pixels or more exhausts the
/// search, which then falls back to straight ahead without a stop.
pub proof fn lemma_far_finish_falls_back(frame: FrameView, dist: u32)
    requires
        ray_hit(frame, 0) == Some(TrackObject::FinishLine(dist)),
        dist >= FINISH_STOP_DIST,
    ensures
        search_ends_with(frame, 0, false),
{
    let start = search_start();
    assert(search_run(frame, 0) == SearchStep::Running(start));
    assert(search_run(frame, 1) == search_step(frame, start));
    assert(start.frontier.subrange(1, 1).len() == 0);
    assert(search_run(frame, 2) == search_step(frame, search_run(frame, 1)->Running_0));
}

/// A left line straight ahead with a clear ray five degrees to the right
/// turns the vehicle five degrees to the right.
pub proof fn lemma_left_line_turns_right(frame: FrameView, dist: u32)
    requires
        ray_hit(frame, 0) == Some(TrackObject::LeftLine(dist)),
        ray_hit(frame, 5) is None,
    ensures
        search_ends_with(frame, 5, false),
{
    let start = search_start();
    let seen = start.seen.insert(0i64);
    assert(search_run(frame, 0) == SearchStep::Running(start));
    assert(search_run(frame, 1) == search_step(frame, start));
    assert(!seen.contains(5i64));
    assert(skip_seen_up(seen, 5) == 5);
    let proposals = next_angles(seen, 0, TrackObject::LeftLine(dist));
    assert(proposals =~= seq![5i64]);
    assert(search_run(frame, 1) is Running);
    let state = search_run(frame, 1)->Running_0;
    assert(state.frontier =~= seq![5i64]);
    assert(search_run(frame, 2) == search_step(frame, state));
}

/// A frame that holds nothing but a left line at the top of column 50 turns
/// the vehicle five degrees to the right: the bearing of the line, within
/// one step of the search.
pub proof fn lemma_line_at_top_turns_five(frame: FrameView)
    requires
        line_at_top(frame),
    ensures
        search_ends_with(frame, 5, false),
{
    lemma_line_at_top_struck_ahead(frame);
    lemma_left_line_turns_right(frame, ray_hit(frame, 0)->Some_0.spec_dist());
}

/// A right line straight ahead with a clear ray five degrees to the left
/// turns the vehicle five degrees to the left.
pub proof fn lemma_right_line_turns_left(frame: FrameView, dist: u32)
    requires
        ray_hit(frame, 0) == Some(TrackObject::RightLine(dist)),
        ray_hit(frame, -5) is None,
    ensures
        search_ends_with(frame, -5i64, false),
{
    let start = search_start();
    let seen = start.seen.insert(0i64);
    assert(search_run(frame, 0) == SearchStep::Running(start));
    assert(search_run(frame, 1) == search_step(frame, start));
    assert(!seen.contains(-5i64));
    assert(skip_seen_down(seen, -5) == -5);
    let proposals = next_angles(seen, 0, TrackObject::RightLine(dist));
    assert(proposals =~= seq![-5i64]);
    assert(search_run(frame, 1) is Running);
    let state = search_run(frame, 1)->Running_0;
    assert(state.frontier =~= seq![-5i64]);
    assert(search_run(frame, 2) == search_step(frame, state));
}

/// The angles a search can test: whole degrees from -90 to 90.
spec fn grid() -> Set<i64> {
    Set::<i64>::range(-90i64, 91i64)
}

/// The angles of the grid not yet tested.
spec fn untested(seen: Set<i64>) -> Set<i64> {
    grid().difference(seen)
}

/// Three to the power `k`.
spec fn pow3(k: nat) -> nat
    decreases k,
{
    if k == 0 {
        1
    } else {
        3 * pow3((k - 1) as nat)
    }
}

/// What one frontier entry can still cost: three to the number of untested
/// angles other than its own.
spec fn weight(seen: Set<i64>, entry: i64) -> nat {
    pow3(untested(seen).remove(entry).len())
}

/// What is left of a search: the weights of the frontier's entries, summed.
/// Every step of the search lowers it.
spec fn potential(frontier: Seq<i64>, seen: Set<i64>) -> nat
    decreases frontier.len(),
{
    if frontier.len() == 0 {
        0
    } else {
        potential(frontier.drop_last(), seen) + weight(seen, frontier.last())
    }
}

/// Powers of three are positive and grow with the exponent.
proof fn lemma_pow3_monotonic(a: nat, b: nat)
    requires
        a <= b,
    ensures
        1 <= pow3(a) <= pow3(b),
    decreases b,
{
    if a < b {
        lemma_pow3_monotonic(a, (b - 1) as nat);
    } else if a > 0 {
        lemma_pow3_monotonic((a - 1) as nat, (a - 1) as nat);
    }
}

/// The grid is finite, and so is what is left of it to test.
proof fn lemma_untested_finite(seen: Set<i64>)
    ensures
        untested(seen).finite(),
        grid().finite(),
        forall|x: i64| grid().contains(x) <==> -90 <= x <= 90,
{
    vstd::set_lib::range_set_properties::<i64>(-90i64, 91i64);
}

/// Marking an angle tested raises no entry's weight.
proof fn lemma_weight_shrinks(seen: Set<i64>, tested: i64, entry: i64)
    ensures
        weight(seen.insert(tested), entry) <= weight(seen, entry),
{
    lemma_untested_finite(seen);
    lemma_untested_finite(seen.insert(tested));
    let before = untested(seen).remove(entry);
    let after = untested(seen.insert(tested)).remove(entry);
    assert(after.subset_of(before));
    lemma_len_subset(after, before);
    lemma_pow3_monotonic(after.len(), before.len());
}

/// Marking an angle tested raises no frontier's potential.
proof fn lemma_potential_shrinks(frontier: Seq<i64>, seen: Set<i64>, tested: i64)
    ensures
        potential(frontier, seen.insert(tested)) <= potential(frontier, seen),
    decreases frontier.len(),
{
    if frontier.len() > 0 {
        lemma_potential_shrinks(frontier.drop_last(), seen, tested);
        lemma_weight_shrinks(seen, tested, frontier.last());
    }
}

/// The potential of a frontier is the weight of its first entry and the
/// potential of the rest.
proof fn lemma_potential_pop(frontier: Seq<i64>, seen: Set<i64>)
    requires
        frontier.len() > 0,
    ensures
        potential(frontier, seen) == weight(seen, frontier[0]) + potential(
            frontier.subrange(1, frontier.len() as int),
            seen,
        ),
    decreases frontier.len(),
{
    let rest = frontier.subrange(1, frontier.len() as int);
    if frontier.len() == 1 {
        assert(frontier.drop_last().len() == 0);
        assert(rest.len() == 0);
        assert(potential(frontier.drop_last(), seen) == 0);
    } else {
        lemma_potential_pop(frontier.drop_last(), seen);
        assert(rest.drop_last() =~= frontier.drop_last().subrange(
            1,
            frontier.drop_last().len() as int,
        ));
        assert(rest.last() == frontier.last());
    }
}

/// The potential of two frontiers joined is the sum of their potentials.
proof fn lemma_potential_append(frontier: Seq<i64>, added: Seq<i64>, seen: Set<i64>)
    ensures
        potential(frontier + added, seen) == potential(frontier, seen) + potential(added, seen),
    decreases added.len(),
{
    if added.len() == 0 {
        assert(frontier + added =~= frontier);
    } else {
        lemma_potential_append(frontier, added.drop_last(), seen);
        assert((frontier + added).drop_last() =~= frontier + added.drop_last());
        assert((frontier + added).last() == added.last());
    }
}

/// Up to two untested proposals weigh less than the entry that made them.
proof fn lemma_proposals_weigh_less(seen: Set<i64>, tested: i64, proposals: Seq<i64>)
    requires
        proposals.len() <= 2,
        forall|i: int|
            0 <= i < proposals.len() ==> grid().contains(#[trigger] proposals[i]) && !seen.insert(
                tested,
            ).contains(proposals[i]),
    ensures
        potential(proposals, seen.insert(tested)) < weight(seen, tested),
    decreases proposals.len(),
{
    let after = seen.insert(tested);
    lemma_untested_finite(seen);
    lemma_untested_finite(after);
    assert(untested(after) =~= untested(seen).remove(tested));
    let left = untested(after).len();
    assert(weight(seen, tested) == pow3(left));
    lemma_pow3_monotonic(0, left);
    assert forall|i: int| 0 <= i < proposals.len() implies left >= 1 && 3 * weight(
        after,
        #[trigger] proposals[i],
    ) == pow3(left) by {
        assert(untested(after).contains(proposals[i]));
    }
    if proposals.len() == 0 {
        assert(potential(proposals, after) == 0);
    } else {
        let shorter = proposals.drop_last();
        let last = proposals.last();
        assert(last == proposals[proposals.len() - 1]);
        assert(3 * weight(after, last) == pow3(left));
        assert(potential(proposals, after) == potential(shorter, after) + weight(after, last));
        if shorter.len() == 0 {
            assert(potential(shorter, after) == 0);
        } else {
            assert(shorter.len() == 1);
            assert(shorter.last() == proposals[0]);
            assert(3 * weight(after, proposals[0]) == pow3(left));
            assert(shorter.drop_last().len() == 0);
            assert(potential(shorter.drop_last(), after) == 0);
            assert(potential(shorter, after) == potential(shorter.drop_last(), after) + weight(
                after,
                shorter.last(),
            ));
        }
    }
}

/// A step of the search that goes on lowers the potential.
proof fn lemma_step_lowers_potential(frontier: Seq<i64>, seen: Set<i64>, proposals: Seq<i64>)
    requires
        frontier.len() > 0,
        proposals.len() <= 2,
        forall|i: int|
            0 <= i < proposals.len() ==> grid().contains(#[trigger] proposals[i]) && !seen.insert(
                frontier[0],
            ).contains(proposals[i]),
    ensures
        potential(
            frontier.subrange(1, frontier.len() as int) + proposals,
            seen.insert(frontier[0]),
        ) < potential(frontier, seen),
{
    let rest = frontier.subrange(1, frontier.len() as int);
    lemma_potential_pop(frontier, seen);
    lemma_potential_append(rest, proposals, seen.insert(frontier[0]));
    lemma_potential_shrinks(rest, seen, frontier[0]);
    lemma_proposals_weigh_less(seen, frontier[0], proposals);
}

/// On the five-degree grid, with 90 untested, the next untested angle to the
/// right exists.
proof fn lemma_skip_up_on_grid(seen: Set<i64>, from: int)
    requires
        -90 <= from <= 90,
        from % 5 == 0,
        !seen.contains(90i64),
    ensures
        from <= skip_seen_up(seen, from) <= 90,
        skip_seen_up(seen, from) % 5 == 0,
        !seen.contains(skip_seen_up(seen, from) as i64),
    decreases 95 - from,
{
    if seen.contains(from as i64) {
        lemma_skip_up_on_grid(seen, from + ANGLE_STEP);
    }
}

/// On the five-degree grid, with -90 untested, the next untested angle to
/// the left exists.
proof fn lemma_skip_down_on_grid(seen: Set<i64>, from: int)
    requires
        -90 <= from <= 90,
        from % 5 == 0,
        !seen.contains(-90i64),
    ensures
        -90 <= skip_seen_down(seen, from) <= from,
        skip_seen_down(seen, from) % 5 == 0,
        !seen.contains(skip_seen_down(seen, from) as i64),
    decreases from + 95,
{
    if seen.contains(from as i64) {
        lemma_skip_down_on_grid(seen, from - ANGLE_STEP);
    }
}

/// Whether the angles of a search are as every search keeps them: the
/// frontier on the five-degree grid, the tested angles steering angles, and
/// neither 90 nor -90 tested.
spec fn on_grid(frontier: Seq<i64>, seen: Set<i64>) -> bool {
    &&& forall|i: int|
        0 <= i < frontier.len() ==> -90 <= #[trigger] frontier[i] <= 90 && frontier[i] % 5 == 0
    &&& forall|tested: i64| seen.contains(tested) ==> is_steering_angle(tested as int)
    &&& !seen.contains(90i64)
    &&& !seen.contains(-90i64)
}

/// The proposals made inside a search are untested angles of the grid.
proof fn lemma_proposals_on_grid(seen: Set<i64>, angle: int, object: TrackObject)
    requires
        -90 < angle < 90,
        angle % 5 == 0,
        !seen.contains(90i64),
        !seen.contains(-90i64),
    ensures
        next_angles(seen, angle, object).len() <= 2,
        !(object is FinishLine) ==> next_angles(seen, angle, object).len() >= 1,
        forall|i: int|
            0 <= i < next_angles(seen, angle, object).len() ==> {
                let proposal = #[trigger] next_angles(seen, angle, object)[i];
                &&& -90 <= proposal <= 90
                &&& proposal % 5 == 0
                &&& !seen.contains(proposal)
            },
{
    lemma_skip_up_on_grid(seen, angle + ANGLE_STEP);
    lemma_skip_down_on_grid(seen, angle - ANGLE_STEP);
}

/// A search under way on a well-formed frame comes to an end.
proof fn lemma_search_ends_from(frame: FrameView, state: SearchState, steps: nat)
    requires
        frame.wf(),
        search_run(frame, steps) == SearchStep::Running(state),
        on_grid(state.frontier, state.seen),
    ensures
        exists|angle: i64, stop: bool| search_ends_with(frame, angle, stop),
    decreases potential(state.frontier, state.seen),
{
    let next = search_step(frame, state);
    assert(search_run(frame, steps + 1) == next);
    match next {
        SearchStep::Done { angle, stop } => {
            assert(search_ends_with(frame, angle, stop));
        },
        SearchStep::Running(after) => {
            let angle = state.frontier[0];
            let rest = state.frontier.subrange(1, state.frontier.len() as int);
            let object = ray_hit(frame, angle as int)->Some_0;
            if angle == 90 || angle == -90 {
                lemma_right_angle_clear(frame, angle as int);
            }
            lemma_proposals_on_grid(after.seen, angle as int, object);
            lemma_untested_finite(after.seen);
            let proposals = if object is FinishLine {
                Seq::<i64>::empty()
            } else {
                next_angles(after.seen, angle as int, object)
            };
            assert(after.frontier =~= rest + proposals);
            lemma_step_lowers_potential(state.frontier, state.seen, proposals);
            lemma_search_ends_from(frame, after, steps + 1);
        },
    }
}

/// The search comes to an end on every well-formed frame: it has a result.
pub proof fn lemma_search_ends(frame: FrameView)
    requires
        frame.wf(),
    ensures
        exists|angle: i64, stop: bool| search_ends_with(frame, angle, stop),
{
    assert(search_run(frame, 0) == SearchStep::Running(search_start()));
    assert(search_start().frontier =~= seq![0i64]);
    lemma_search_ends_from(frame, search_start(), 0);
}

/// Whether no ray of the frame strikes a finish line, at any steering
/// angle.
pub open spec fn no_finish_struck(frame: FrameView) -> bool {
    forall|angle: int|
        is_steering_angle(angle) ==> !(#[trigger] ray_hit(frame, angle) is Some && ray_hit(
            frame,
            angle,
        )->Some_0 is FinishLine)
}

/// Whether the rays of the frame strike alike to both sides: the rays at an
/// angle and at its opposite are both clear, or both strike something at the
/// same distance.
pub open spec fn strikes_mirrored(frame: FrameView) -> bool {
    forall|angle: int|
        is_steering_angle(angle) ==> match (#[trigger] ray_hit(frame, angle), ray_hit(
            frame,
            -angle,
        )) {
            (None, None) => true,
            (Some(here), Some(there)) => here.spec_dist() == there.spec_dist(),
            _ => false,
        }
}

/// A search under way with candidates left, on a frame where no ray strikes
/// a finish line, ends at a clear angle.
proof fn lemma_search_finds_clear_from(frame: FrameView, state: SearchState, steps: nat)
    requires
        frame.wf(),
        no_finish_struck(frame),
        search_run(frame, steps) == SearchStep::Running(state),
        on_grid(state.frontier, state.seen),
        state.frontier.len() > 0,
    ensures
        exists|angle: i64| #[trigger]
            search_ends_with(frame, angle, false) && is_steering_angle(angle as int) && ray_hit(
                frame,
                angle as int,
            ) is None,
    decreases potential(state.frontier, state.seen),
{
    let next = search_step(frame, state);
    assert(search_run(frame, steps + 1) == next);
    let angle = state.frontier[0];
    assert(is_steering_angle(angle as int));
    match ray_hit(frame, angle as int) {
        None => {
            assert(next == SearchStep::Done { angle, stop: false });
            assert(search_ends_with(frame, angle, false));
        },
        Some(object) => {
            assert(!(object is FinishLine));
            let rest = state.frontier.subrange(1, state.frontier.len() as int);
            let seen = state.seen.insert(angle);
            if angle == 90 || angle == -90 {
                lemma_right_angle_clear(frame, angle as int);
            }
            lemma_proposals_on_grid(seen, angle as int, object);
            lemma_untested_finite(seen);
            let proposals = next_angles(seen, angle as int, object);
            assert(next is Running);
            let after = next->Running_0;
            assert(after.frontier =~= rest + proposals);
            lemma_step_lowers_potential(state.frontier, state.seen, proposals);
            lemma_search_finds_clear_from(frame, after, steps + 1);
        },
    }
}

/// Where no ray strikes a finish line the search ends at an angle whose ray
/// is clear, without the order to stop: lines and obstacles alone never
/// exhaust it.
pub proof fn lemma_search_finds_clear(frame: FrameView)
    requires
        frame.wf(),
        no_finish_struck(frame),
    ensures
        exists|angle: i64| #[trigger]
            search_ends_with(frame, angle, false) && is_steering_angle(angle as int) && ray_hit(
                frame,
                angle as int,
            ) is None,
{
    assert(search_run(frame, 0) == SearchStep::Running(search_start()));
    assert(search_start().frontier =~= seq![0i64]);
    lemma_search_finds_clear_from(frame, search_start(), 0);
}

/// Between obstructions that the rays strike alike to both sides, the search
/// chooses straight ahead or an angle that ties with its opposite: the rays
/// at the chosen angle and at its opposite are both clear.
pub proof fn lemma_mirrored_strikes_tie(frame: FrameView)
    requires
        frame.wf(),
        no_finish_struck(frame),
        strikes_mirrored(frame),
    ensures
        exists|angle: i64| #[trigger]
            search_ends_with(frame, angle, false) && ray_hit(frame, angle as int) is None
                && ray_hit(frame, -angle) is None,
{
    lemma_search_finds_clear(frame);
    let angle = choose|angle: i64| #[trigger]
        search_ends_with(frame, angle, false) && is_steering_angle(angle as int) && ray_hit(
            frame,
            angle as int,
        ) is None;
    assert(ray_hit(frame, -(angle as int)) is None);
    assert(search_ends_with(frame, angle, false));
}

/// A hash set of angles made by std holds exactly what was inserted: its
/// keys and its hasher are of the kinds for which a hash set is a set.
pub proof fn lemma_seen_is_a_set()
    ensures
        vstd::std_specs::hash::obeys_key_model::<i64>(),
        vstd::std_specs::hash::builds_valid_hashers::<std::hash::RandomState>(),
{
}

/// The first untested angle at or above `from`, in steps of five degrees.
fn next_above(seen: &HashSet<i64>, from: i64) -> (angle: i64)
    requires
        -95 <= from <= 95,
    ensures
        angle == skip_seen_up(seen@, from as int),
        from <= angle <= 95,
{
    let mut new_angle: i64 = from;
    while new_angle <= 90 && seen.contains(&new_angle)
        invariant
            from <= new_angle <= 95,
            skip_seen_up(seen@, new_angle as int) == skip_seen_up(seen@, from as int),
        decreases 95 - new_angle,
    {
        new_angle = new_angle + ANGLE_STEP;
    }
    new_angle
}

/// The first untested angle at or below `from`, in steps of five degrees.
fn next_below(seen: &HashSet<i64>, from: i64) -> (angle: i64)
    requires
        -95 <= from <= 95,
    ensures
        angle == skip_seen_down(seen@, from as int),
        -95 <= angle <= from,
{
    let mut new_angle: i64 = from;
    while new_angle >= -90 && seen.contains(&new_angle)
        invariant
            -95 <= new_angle <= from,
            skip_seen_down(seen@, new_angle as int) == skip_seen_down(seen@, from as int),
        decreases new_angle + 95,
    {
        new_angle = new_angle - ANGLE_STEP;
    }
    new_angle
}

/// Returns next angles to check based on seen angles and seen track object.
pub fn handle_track_obj(seen: &HashSet<i64>, angle: &Angle, obj: &TrackObject) -> (angles: Vec<
    Angle,
>)
    requires
        is_steering_angle(*angle as int),
        forall|tested: i64| seen@.contains(tested) ==> is_steering_angle(tested as int),
    ensures
        angles@ == next_angles(seen@, *angle as int, *obj),
{
    let mut angles: Vec<Angle> = Vec::new();
    match obj {
        TrackObject::FinishLine(_) => {},
        TrackObject::LeftLine(_) => {
            let new_angle: i64 = next_above(seen, *angle + ANGLE_STEP);
            if new_angle <= 90 {
                angles.push(new_angle);
            }
        },
        TrackObject::RightLine(_) => {
            let new_angle: i64 = next_below(seen, *angle - ANGLE_STEP);
            if new_angle >= -90 {
                angles.push(new_angle);
            }
        },
        TrackObject::Obstacle(_) => {
            let right_angle: i64 = next_below(seen, *angle - ANGLE_STEP);
            if right_angle >= -90 {
                angles.push(right_angle);
            }
            let left_angle: i64 = next_above(seen, *angle + ANGLE_STEP);
            if left_angle <= 90 {
                angles.push(right_angle);
            }
        },
    }
    assert(angles@ =~= next_angles(seen@, *angle as int, *obj));
    angles
}

/// What the search decides for one frame: the angle to steer by, in whole
/// degrees, and whether the vehicle is to stop because the finish line is
/// near.
#[derive(Clone, Copy, Debug, PartialEq, Eq, Structural)]
pub struct SearchOutcome {
    pub angle: Angle,
    pub stop: bool,
}

/// Appends `items` to the back of `queue`, in order.
fn enqueue_all(queue: &mut VecDeque<i64>, items: &Vec<i64>)
    ensures
        final(queue)@ == old(queue)@ + items@,
{
    let mut i: usize = 0;
    while i < items.len()
        invariant
            i <= items.len(),
            queue@ == old(queue)@ + items@.take(i as int),
        decreases items.len() - i,
    {
        queue.push_back(items[i]);
        assert(items@.take(i + 1) =~= items@.take(i as int).push(items@[i as int]));
        i = i + 1;
    }
    assert(items@.take(items.len() as int) =~= items@);
}

impl Pathfinder {
    /// Chooses the angle to drive at from the masks of one frame.
    ///
    /// Candidates are tested in the order in which they were proposed,
    /// starting straight ahead. The first whose ray is clear is chosen, so
    /// that of two clear angles of the same size the one proposed first
    /// wins. Failing that the choice is the tested angle whose ray travelled
    /// furthest, among those struck nearer than 150 pixels and the first of
    /// them where several travelled equally far, or straight ahead when
    /// there is none. A finish line nearer than ten pixels ends the search
    /// with the order to stop.
    pub fn smart_choose_angle(&self, frame: &Frame) -> (outcome: SearchOutcome)
        ensures
            search_ends_with(frame@, outcome.angle, outcome.stop),
            is_steering_angle(outcome.angle as int),
            outcome.angle % ANGLE_STEP == 0,
    {
        let mut best_angle: Angle = 0;
        let mut max_dist: Option<u32> = None;
        let mut test_angles: VecDeque<i64> = VecDeque::new();
        test_angles.push_back(0);
        let mut seen: HashSet<i64> = HashSet::new();
        let ghost view = frame@;
        let ghost mut steps: nat = 0;
        proof {
            use_type_invariant(frame);
            frame.lemma_view_wf();
            assert(test_angles@ =~= seq![0i64]);
        }
        loop
            invariant
                view == frame@,
                view.wf(),
                search_run(view, steps) == SearchStep::Running(
                    SearchState { frontier: test_angles@, seen: seen@, best_angle, max_dist },
                ),
                on_grid(test_angles@, seen@),
                is_steering_angle(best_angle as int),
                best_angle % ANGLE_STEP == 0,
            decreases potential(test_angles@, seen@),
        {
            let ghost state = SearchState {
                frontier: test_angles@,
                seen: seen@,
                best_angle,
                max_dist,
            };
            let ghost next = search_step(view, state);
            assert(search_run(view, steps + 1) == next);
            let angle: i64 = match test_angles.pop_front() {
                None => {
                    return SearchOutcome { angle: best_angle, stop: false };
                },
                Some(angle) => angle,
            };
            assert(angle == state.frontier[0]);
            seen.insert(angle);
            let obj: TrackObject = match ray_dist(frame, &angle) {
                None => {
                    return SearchOutcome { angle, stop: false };
                },
                Some(obj) => obj,
            };
            proof {
                if angle == 90 || angle == -90 {
                    lemma_right_angle_clear(view, angle as int);
                }
                lemma_proposals_on_grid(seen@, angle as int, obj);
                lemma_untested_finite(seen@);
            }
            if let TrackObject::FinishLine(dist) = obj {
                if dist < FINISH_STOP_DIST {
                    return SearchOutcome { angle: best_angle, stop: true };
                }
                proof {
                    lemma_step_lowers_potential(state.frontier, state.seen, Seq::empty());
                    assert(test_angles@ + Seq::<i64>::empty() =~= test_angles@);
                    steps = steps + 1;
                }
                continue ;
            }
            if obj.dist() < BEST_DIST_LIMIT {
                if let Some(dist) = max_dist {
                    if obj.dist() > dist {
                        best_angle = angle;
                        max_dist = Some(obj.dist());
                    }
                } else {
                    best_angle = angle;
                    max_dist = Some(obj.dist());
                }
            }
            let new_angles: Vec<Angle> = handle_track_obj(&seen, &angle, &obj);
            if new_angles.len() == 0 {
                return SearchOutcome { angle: best_angle, stop: false };
            }
            enqueue_all(&mut test_angles, &new_angles);
            proof {
                lemma_step_lowers_potential(state.frontier, state.seen, new_angles@);
                steps = steps + 1;
            }
        }
    }
}

} // verus!
