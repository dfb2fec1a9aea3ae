//! The pathfinder: the state kept from frame to frame, the steering filter
//! and the course of one drive.

use crate::config::{DrivableConfig, MICRO};
use crate::geometry::trunc_div;
use crate::mask::Frame;
use crate::proximity::{lemma_line_at_top_struck_ahead, line_at_top, ray_hit, TrackObject};
use crate::search::{
    lemma_left_line_turns_right, lemma_search_result_unique, search_ends_with, SearchOutcome,
};
use crate::tangent::Angle;
use vstd::prelude::*;

verus! {

/// A speed in percent of full speed.
pub type Percent = isize;

/// The largest commanded angle to either side, in millionths of a degree.
pub const MAX_COMMAND: i64 = 90_000_000;

/// A rectangle of pixels: the part of the camera's picture that is looked
/// at.
#[derive(Clone, Copy, Debug, PartialEq, Eq, Structural)]
pub struct Rect {
    pub x: i32,
    pub y: i32,
    pub width: i32,
    pub height: i32,
}

/// The running sum of raw angles after `sum` was reached, held between
/// `-i_max` and `i_max`.
pub open spec fn clamp_integral(sum: int, i_max: int) -> int {
    if sum > i_max {
        i_max
    } else if sum < -i_max {
        -i_max
    } else {
        sum
    }
}

/// The filter's integral after a raw angle of `angle` whole degrees: the sum
/// of raw angles in millionths of a degree, held within the bound.
pub open spec fn next_integral(integral: int, i_max: int, angle: int) -> int {
    clamp_integral(integral + angle * MICRO, i_max)
}

/// A command held between -90 and 90 degrees, in millionths of a degree.
pub open spec fn clamp_command(command: int) -> int {
    if command < -MAX_COMMAND {
        -MAX_COMMAND
    } else if command > MAX_COMMAND {
        MAX_COMMAND as int
    } else {
        command
    }
}

/// The filter's output in millionths of a degree: the proportional gain
/// times the raw angle plus the integral gain times the new integral,
/// rounded toward zero and held between -90 and 90 degrees.
pub open spec fn filter_output(p_gain: int, i_gain: int, angle: int, integral: int) -> int {
    clamp_command(trunc_div(p_gain * (angle * MICRO) + i_gain * integral, MICRO as int))
}

/// The forward speed in percent for a speed fraction in millionths, rounded
/// to the nearest whole percent, halves upward.
pub open spec fn percent_of(speed: int) -> int {
    (speed + 5_000) / 10_000
}

/// The filter's integral after the same raw angle has come in for a number
/// of frames in a row.
pub open spec fn integral_after(integral: int, i_max: int, angle: int, frames: nat) -> int
    decreases frames,
{
    if frames == 0 {
        integral
    } else {
        next_integral(integral_after(integral, i_max, angle, (frames - 1) as nat), i_max, angle)
    }
}

/// A raw angle of zero leaves the integral as it is. With the integral at
/// zero the filter then stays at rest, for any number of frames: the
/// integral remains zero and so does the output.
pub proof fn lemma_filter_at_rest(p_gain: int, i_gain: int, i_max: int, integral: int, frames: nat)
    requires
        0 <= i_max,
        -i_max <= integral <= i_max,
    ensures
        integral_after(integral, i_max, 0, frames) == integral,
        filter_output(p_gain, i_gain, 0, 0) == 0,
    decreases frames,
{
    if frames > 0 {
        lemma_filter_at_rest(p_gain, i_gain, i_max, integral, (frames - 1) as nat);
    }
    assert(p_gain * (0 * MICRO) + i_gain * 0 == 0) by (nonlinear_arith);
}

/// Under a steady raw angle to the right the integral climbs by that angle
/// with every frame until it reaches its bound, and stays there.
pub proof fn lemma_steady_angle_saturates(integral: int, i_max: int, angle: int, frames: nat)
    requires
        0 <= i_max,
        -i_max <= integral <= i_max,
        0 <= angle,
    ensures
        integral_after(integral, i_max, angle, frames) == if integral + frames * (angle * MICRO)
            >= i_max {
            i_max
        } else {
            integral + frames * (angle * MICRO)
        },
    decreases frames,
{
    if frames > 0 {
        lemma_steady_angle_saturates(integral, i_max, angle, (frames - 1) as nat);
        let step = angle * MICRO;
        assert(frames * step == (frames - 1) * step + step) by (nonlinear_arith);
        assert(0 <= (frames - 1) * step) by (nonlinear_arith)
            requires
                frames >= 1,
                0 <= step,
        ;
    } else {
        assert(0 * (angle * MICRO) == 0);
    }
}

/// The integral never leaves its bound, and a sum of raw angles that reaches
/// the bound leaves the integral on it.
pub proof fn lemma_integral_saturates(integral: int, i_max: int, angle: int)
    requires
        0 <= i_max,
    ensures
        -i_max <= next_integral(integral, i_max, angle) <= i_max,
        integral + angle * MICRO >= i_max ==> next_integral(integral, i_max, angle) == i_max,
        integral + angle * MICRO <= -i_max ==> next_integral(integral, i_max, angle) == -i_max,
{
}

/// The output never leaves the range of steering angles, and a weighted sum
/// of raw angle and integral of 90 degrees or more to one side is commanded
/// as 90 degrees to that side.
pub proof fn lemma_output_saturates(p_gain: int, i_gain: int, angle: int, integral: int)
    ensures
        -MAX_COMMAND <= filter_output(p_gain, i_gain, angle, integral) <= MAX_COMMAND,
        p_gain * (angle * MICRO) + i_gain * integral >= MAX_COMMAND * MICRO ==> filter_output(
            p_gain,
            i_gain,
            angle,
            integral,
        ) == MAX_COMMAND,
        p_gain * (angle * MICRO) + i_gain * integral <= -MAX_COMMAND * MICRO ==> filter_output(
            p_gain,
            i_gain,
            angle,
            integral,
        ) == -MAX_COMMAND,
{
}

/// With a proportional gain of one and no integral gain the filter commands
/// the raw angle itself, whatever the integral holds.
pub proof fn lemma_unit_gain_passes_raw_angle(angle: int, integral: int)
    requires
        -90 <= angle <= 90,
    ensures
        filter_output(MICRO as int, 0, angle, integral) == angle * MICRO,
{
    assert(MICRO * (angle * MICRO) + 0 * integral == (angle * MICRO) * MICRO) by (nonlinear_arith);
    let command = angle * MICRO;
    assert(trunc_div(command * MICRO, MICRO as int) == command) by {
        if command >= 0 {
            assert((command * MICRO) / (MICRO as int) == command) by (nonlinear_arith)
                requires
                    MICRO == 1_000_000,
            ;
        } else {
            assert((-(command * MICRO)) / (MICRO as int) == -command) by (nonlinear_arith)
                requires
                    MICRO == 1_000_000,
            ;
        }
    }
}

/// From rest the integral takes in the first raw angle whole, where its
/// bound leaves room for it.
pub proof fn lemma_first_angle_enters_integral(i_max: int, angle: int)
    requires
        -i_max <= angle * MICRO <= i_max,
    ensures
        next_integral(0, i_max, angle) == angle * MICRO,
{
}

/// Where a drive stands.
#[derive(Clone, Copy, Debug, PartialEq, Eq, Structural)]
pub enum DriveState {
    /// The actuator is disabled; the pathfinder waits for it to be enabled.
    Idle,
    /// Frames are read and steered by, one at a time.
    Driving,
    /// The drive is over.
    Stopped,
}

/// What happened outside since the last action.
pub enum DriveEvent<'a> {
    /// The actuator was asked whether it is enabled, and said this.
    Enabled(bool),
    /// A frame was read and classified.
    Frame(&'a Frame<'a>),
    /// No further frame could be read.
    EndOfStream,
}

/// What the pathfinder decided on one frame.
#[derive(Clone, Copy, Debug, PartialEq, Eq, Structural)]
pub struct Steering {
    /// The angle chosen by the search, in whole degrees.
    pub raw_angle: Angle,
    /// The filtered angle to command, in millionths of a degree.
    pub angle: i64,
    /// The forward speed to command, in percent.
    pub speed: Percent,
    /// Whether the actuator is to be disabled: the finish line is near.
    pub stop: bool,
}

/// What is to be done outside next.
#[derive(Clone, Copy, Debug, PartialEq, Eq, Structural)]
pub enum DriveAction {
    /// Ask the actuator whether it is enabled and report the answer.
    Poll,
    /// Read and classify the next frame and report it, or the end of the
    /// stream.
    Read,
    /// Disable the actuator if the steering says so, command the angle and
    /// the speed, then ask the actuator whether it is enabled and report the
    /// answer.
    Actuate(Steering),
    /// Finish any recording; nothing more is to be done.
    Halt,
}

/// Where a drive stands after an event that is not a frame, and what is to
/// be done next.
///
/// An idle pathfinder starts to drive when the actuator reports that it is
/// enabled, and otherwise asks again. A driving pathfinder reads the next
/// frame while the actuator stays enabled, and stops when it does not or
/// when the stream ends. A stopped pathfinder stays stopped.
pub open spec fn drive_on(state: DriveState, enabled: Option<bool>) -> (DriveState, DriveAction) {
    match state {
        DriveState::Idle => if enabled == Some(true) {
            (DriveState::Driving, DriveAction::Read)
        } else {
            (DriveState::Idle, DriveAction::Poll)
        },
        DriveState::Driving => if enabled == Some(true) {
            (DriveState::Driving, DriveAction::Read)
        } else {
            (DriveState::Stopped, DriveAction::Halt)
        },
        DriveState::Stopped => (DriveState::Stopped, DriveAction::Halt),
    }
}

/// Reads classified frames and tells a car which way to turn.
pub struct Pathfinder {
    /// Region of the camera's picture to consider.
    roi: Rect,
    /// Thresholds and gains.
    config: DrivableConfig,
    /// Integral of the steering filter, in millionths of a degree.
    angle_integral: i64,
    /// Where the drive stands.
    state: DriveState,
}

impl Pathfinder {
    #[verifier::type_invariant]
    closed spec fn inv(&self) -> bool {
        &&& self.config.is_valid()
        &&& -self.config.i_max <= self.angle_integral <= self.config.i_max
    }

    /// Where the drive stands.
    pub closed spec fn spec_state(&self) -> DriveState {
        self.state
    }

    /// Whether `steering` is what this pathfinder decides on `frame`, and
    /// `after` the pathfinder that it then is: the raw angle and the stop
    /// order are the result of the search, the integral has taken the raw
    /// angle in, the commanded angle is the filter's output and the speed is
    /// the configured one in percent.
    pub open spec fn steers(&self, frame: &Frame, steering: Steering, after: &Pathfinder) -> bool {
        &&& search_ends_with(frame@, steering.raw_angle, steering.stop)
        &&& after.spec_config() == self.spec_config()
        &&& after.spec_roi() == self.spec_roi()
        &&& after.spec_integral() == next_integral(
            self.spec_integral(),
            self.spec_config().i_max as int,
            steering.raw_angle as int,
        )
        &&& steering.angle == filter_output(
            self.spec_config().p_gain as int,
            self.spec_config().i_gain as int,
            steering.raw_angle as int,
            after.spec_integral(),
        )
        &&& steering.speed == percent_of(self.spec_config().speed as int)
    }

    /// A frame with a left line straight ahead and a clear ray five degrees
    /// to the right, met from rest with a proportional gain of one, no
    /// integral gain and an integral bound of five degrees or more: the
    /// search finds five degrees, the filter commands five degrees, and the
    /// integral holds five degrees afterwards.
    pub proof fn lemma_line_ahead_end_to_end(
        &self,
        frame: &Frame,
        steering: Steering,
        after: &Pathfinder,
        dist: u32,
    )
        requires
            self.steers(frame, steering, after),
            ray_hit(frame@, 0) == Some(TrackObject::LeftLine(dist)),
            ray_hit(frame@, 5) is None,
            self.spec_config().p_gain == MICRO,
            self.spec_config().i_gain == 0,
            self.spec_config().i_max >= 5 * MICRO,
            self.spec_integral() == 0,
        ensures
            steering.raw_angle == 5,
            !steering.stop,
            steering.angle == 5 * MICRO,
            after.spec_integral() == 5 * MICRO,
    {
        lemma_left_line_turns_right(frame@, dist);
        lemma_search_result_unique(frame@, steering.raw_angle, steering.stop, 5, false);
        lemma_first_angle_enters_integral(self.spec_config().i_max as int, 5);
        lemma_unit_gain_passes_raw_angle(5, after.spec_integral());
    }

    /// End to end: a frame that holds nothing but a left line at the top of
    /// column 50, met from rest with a proportional gain of one, no integral
    /// gain and an integral bound of five degrees or more, is steered by at
    /// five degrees, raw and commanded, and leaves five degrees in the
    /// integral.
    pub proof fn lemma_line_at_top_end_to_end(
        &self,
        frame: &Frame,
        steering: Steering,
        after: &Pathfinder,
    )
        requires
            self.steers(frame, steering, after),
            line_at_top(frame@),
            self.spec_config().p_gain == MICRO,
            self.spec_config().i_gain == 0,
            self.spec_config().i_max >= 5 * MICRO,
            self.spec_integral() == 0,
        ensures
            steering.raw_angle == 5,
            !steering.stop,
            steering.angle == 5 * MICRO,
            after.spec_integral() == 5 * MICRO,
    {
        lemma_line_at_top_struck_ahead(frame@);
        self.lemma_line_ahead_end_to_end(
            frame,
            steering,
            after,
            ray_hit(frame@, 0)->Some_0.spec_dist(),
        );
    }

    /// The configuration given at the start.
    pub closed spec fn spec_config(&self) -> DrivableConfig {
        self.config
    }

    /// The integral of the steering filter, in millionths of a degree.
    pub closed spec fn spec_integral(&self) -> int {
        self.angle_integral as int
    }

    /// The region of interest.
    pub closed spec fn spec_roi(&self) -> Rect {
        self.roi
    }

    /// Makes a pathfinder at rest: the integral is zero and the region of
    /// interest is the lower 250 rows of a picture 640 by 480.
    pub fn new(config: DrivableConfig) -> (pathfinder: Pathfinder)
        requires
            config.is_valid(),
        ensures
            pathfinder.spec_config() == config,
            pathfinder.spec_integral() == 0,
            pathfinder.spec_roi() == (Rect { x: 0, y: 230, width: 640, height: 250 }),
            pathfinder.spec_state() == DriveState::Idle,
    {
        Pathfinder {
            roi: Rect { x: 0, y: 230, width: 640, height: 250 },
            config,
            angle_integral: 0,
            state: DriveState::Idle,
        }
    }

    /// Where the drive stands.
    pub fn state(&self) -> (state: DriveState)
        ensures
            state == self.spec_state(),
    {
        self.state
    }

    /// The configured forward speed in percent, rounded to the nearest whole
    /// percent, halves upward.
    pub fn speed_percent(&self) -> (speed: Percent)
        ensures
            speed == percent_of(self.spec_config().speed as int),
            0 <= speed <= 100,
    {
        proof {
            use_type_invariant(self);
        }
        ((self.config.speed + 5_000) / 10_000) as isize
    }

    /// The configuration given at the start.
    pub fn config(&self) -> (config: &DrivableConfig)
        ensures
            *config == self.spec_config(),
            config.is_valid(),
    {
        proof {
            use_type_invariant(self);
        }
        &self.config
    }

    /// The integral of the steering filter, in millionths of a degree. It
    /// lies within the configured bound.
    pub fn angle_integral(&self) -> (integral: i64)
        ensures
            integral == self.spec_integral(),
            -self.spec_config().i_max <= integral <= self.spec_config().i_max,
    {
        proof {
            use_type_invariant(self);
        }
        self.angle_integral
    }

    /// The region of interest.
    pub fn roi(&self) -> (roi: Rect)
        ensures
            roi == self.spec_roi(),
    {
        self.roi
    }

    /// Considers an angle as an input to the steering filter: adds it to the
    /// integral, holds the integral within its bound and returns the
    /// controlled value in millionths of a degree.
    pub fn pid_consider_angle(&mut self, angle: Angle) -> (controlled: i64)
        ensures
            final(self).spec_config() == old(self).spec_config(),
            final(self).spec_roi() == old(self).spec_roi(),
            final(self).spec_state() == old(self).spec_state(),
            final(self).spec_integral() == next_integral(
                old(self).spec_integral(),
                old(self).spec_config().i_max as int,
                angle as int,
            ),
            controlled == filter_output(
                old(self).spec_config().p_gain as int,
                old(self).spec_config().i_gain as int,
                angle as int,
                final(self).spec_integral(),
            ),
            -MAX_COMMAND <= controlled <= MAX_COMMAND,
            -old(self).spec_config().i_max <= final(self).spec_integral() <= old(
                self,
            ).spec_config().i_max,
    {
        proof {
            use_type_invariant(&*self);
        }
        let i_max: i128 = self.config.i_max as i128;
        let raw: i128 = angle as i128 * MICRO as i128;
        assert(raw == angle * 1_000_000);
        assert(-0x8000_0000_0000_0000int * 1_000_000 <= raw <= 0x8000_0000_0000_0000int * 1_000_000);
        let sum: i128 = self.angle_integral as i128 + raw;
        let integral: i128 = if sum > i_max {
            i_max
        } else if sum < -i_max {
            -i_max
        } else {
            sum
        };
        self.angle_integral = integral as i64;
        let p_gain: i128 = self.config.p_gain as i128;
        let i_gain: i128 = self.config.i_gain as i128;
        assert(-0x8000_0000_0000_0000 * 1_000_000 <= i_gain * integral <= 0x8000_0000_0000_0000
            * 1_000_000) by (nonlinear_arith)
            requires
                0 <= i_gain <= 1_000_000,
                -0x8000_0000_0000_0000 <= integral <= 0x8000_0000_0000_0000,
        ;
        assert(-0x8000_0000_0000_0000 * 1_000_000 * 1_000_000 <= p_gain * raw
            <= 0x8000_0000_0000_0000 * 1_000_000 * 1_000_000) by (nonlinear_arith)
            requires
                0 <= p_gain <= 1_000_000,
                -0x8000_0000_0000_0000 * 1_000_000 <= raw <= 0x8000_0000_0000_0000 * 1_000_000,
        ;
        let scaled: i128 = p_gain * raw + i_gain * integral;
        let command: i128 = scaled / (MICRO as i128);
        if command < -(MAX_COMMAND as i128) {
            -MAX_COMMAND
        } else if command > MAX_COMMAND as i128 {
            MAX_COMMAND
        } else {
            command as i64
        }
    }

    /// Chooses an angle to drive at from the masks of one frame: runs the
    /// search, then the steering filter on the angle found.
    pub fn consider_frame(&mut self, frame: &Frame) -> (steering: Steering)
        ensures
            old(self).steers(frame, steering, final(self)),
            final(self).spec_state() == old(self).spec_state(),
    {
        let outcome: SearchOutcome = self.smart_choose_angle(frame);
        let speed: Percent = self.speed_percent();
        let angle: i64 = self.pid_consider_angle(outcome.angle);
        Steering { raw_angle: outcome.angle, angle, speed, stop: outcome.stop }
    }

    /// Takes a drive one event further and says what is to be done next.
    ///
    /// A frame that arrives while driving is steered by. A frame or the end
    /// of the stream that arrives while idle or stopped changes nothing. For
    /// every other event see [`drive_on`].
    pub fn drive(&mut self, event: DriveEvent) -> (action: DriveAction)
        ensures
            final(self).spec_config() == old(self).spec_config(),
            final(self).spec_roi() == old(self).spec_roi(),
            match event {
                DriveEvent::Enabled(enabled) => {
                    &&& (final(self).spec_state(), action) == drive_on(
                        old(self).spec_state(),
                        Some(enabled),
                    )
                    &&& final(self).spec_integral() == old(self).spec_integral()
                },
                DriveEvent::EndOfStream => {
                    &&& (final(self).spec_state(), action) == drive_on(old(self).spec_state(), None)
                    &&& final(self).spec_integral() == old(self).spec_integral()
                },
                DriveEvent::Frame(frame) => if old(self).spec_state() == DriveState::Driving {
                    &&& final(self).spec_state() == DriveState::Driving
                    &&& action matches DriveAction::Actuate(steering)
                    &&& old(self).steers(frame, steering, final(self))
                } else {
                    &&& (final(self).spec_state(), action) == drive_on(old(self).spec_state(), None)
                    &&& final(self).spec_integral() == old(self).spec_integral()
                },
            },
    {
        proof {
            use_type_invariant(&*self);
        }
        match event {
            DriveEvent::Frame(frame) => {
                if self.state == DriveState::Driving {
                    return DriveAction::Actuate(self.consider_frame(frame));
                }
                self.idle_or_stopped()
            },
            DriveEvent::Enabled(true) => match self.state {
                DriveState::Stopped => DriveAction::Halt,
                _ => {
                    self.state = DriveState::Driving;
                    DriveAction::Read
                },
            },
            _ => match self.state {
                DriveState::Driving => {
                    self.state = DriveState::Stopped;
                    DriveAction::Halt
                },
                _ => self.idle_or_stopped(),
            },
        }
    }

    /// What an idle or stopped pathfinder asks for when nothing changes.
    fn idle_or_stopped(&self) -> (action: DriveAction)
        requires
            self.spec_state() != DriveState::Driving,
        ensures
            (self.spec_state(), action) == drive_on(self.spec_state(), None),
    {
        match self.state {
            DriveState::Idle => DriveAction::Poll,
            _ => DriveAction::Halt,
        }
    }
}

} // verus!
