//! The decisions of a fan controller: which speed to write for a temperature
//! or a request, when a new settling window starts, and how a measured speed
//! compares to the target. Reading and writing the fan's sysfs files, the
//! clock, and the floating-point speed curves belong to the daemon.
use vstd::prelude::*;

use crate::config::{FanConfig, SpeedCurve};
use crate::error::Error;
use crate::text::{parse_u32, parsed_unsigned, trim, trim_end, trimmed, trimmed_end};

verus! {

/// The position just after the last `/` of `path` (0 when it has none).
pub open spec fn after_last_separator(path: Seq<char>) -> nat
    decreases path.len(),
{
    if path.len() == 0 {
        0
    } else if path.last() == '/' {
        path.len()
    } else {
        after_last_separator(path.drop_last())
    }
}

/// The position after the last separator lies within the path.
pub proof fn lemma_after_last_separator_bound(path: Seq<char>)
    ensures
        after_last_separator(path) <= path.len(),
    decreases path.len(),
{
    if path.len() > 0 && path.last() != '/' {
        lemma_after_last_separator_bound(path.drop_last());
    }
}

/// What `Path::file_name` gives for a Unix path: its last component, where
/// trailing and repeated `/` and `.` components other than a leading one are
/// skipped; nothing when that component is `..`, a leading `.`, the root, or
/// when the path is empty.
pub open spec fn path_file_name(path: Seq<char>) -> Option<Seq<char>>
    decreases path.len(),
{
    if path.len() == 0 {
        None
    } else if path.last() == '/' {
        path_file_name(path.drop_last())
    } else {
        let start = after_last_separator(path.drop_last());
        let part = path.subrange(start as int, path.len() as int);
        if part == seq!['.'] {
            if start == 0 {
                None
            } else {
                proof {
                    lemma_after_last_separator_bound(path.drop_last());
                }
                path_file_name(path.subrange(0, start as int))
            }
        } else if part == seq!['.', '.'] {
            None
        } else {
            Some(part)
        }
    }
}

/// What `Path::with_file_name` gives: the path with its last component
/// replaced by `name` (or `name` pushed, when there is none).
pub uninterp spec fn path_with_file_name(path: Seq<char>, name: Seq<char>) -> Seq<char>;

/// `Path::file_name`, for a path given as UTF-8 text.
#[verifier::external_body]
fn file_name_of(path: &str) -> (res: Option<String>)
    ensures
        res is Some <==> path_file_name(path@) is Some,
        res matches Some(name) ==> path_file_name(path@) == Some(name@),
{
    std::path::Path::new(path).file_name().map(|name| name.to_string_lossy().into_owned())
}

/// `Path::with_file_name`, for a path and a name given as UTF-8 text.
#[verifier::external_body]
fn with_file_name(path: &str, name: &str) -> (res: String)
    ensures
        res@ == path_with_file_name(path@, name@),
{
    std::path::Path::new(path).with_file_name(name).to_string_lossy().into_owned()
}

/// The sysfs files of a fan: `<fan>_min`, `<fan>_max`, `<fan>_input`,
/// `<fan>_output` and `<fan>_manual` beside the fan's base path.
#[derive(Debug, Clone, Copy, PartialEq, Eq, Structural)]
pub enum FanComponent {
    Min,
    Max,
    Input,
    Output,
    Manual,
}

/// The suffix of a component's file name.
pub open spec fn component_suffix(component: FanComponent) -> Seq<char> {
    match component {
        FanComponent::Min => "_min"@,
        FanComponent::Max => "_max"@,
        FanComponent::Input => "_input"@,
        FanComponent::Output => "_output"@,
        FanComponent::Manual => "_manual"@,
    }
}

/// How messages name a component.
pub open spec fn component_description(component: FanComponent) -> Seq<char> {
    match component {
        FanComponent::Min => "min speed"@,
        FanComponent::Max => "max speed"@,
        FanComponent::Input => "current/input speed"@,
        FanComponent::Output => "target/output speed"@,
        FanComponent::Manual => "manual control"@,
    }
}

/// The path of a component's file: the base path with its file name
/// extended by the component's suffix.
pub open spec fn component_path(component: FanComponent, base: Seq<char>) -> Seq<char> {
    path_with_file_name(base, path_file_name(base)->0 + component_suffix(component))
}

impl FanComponent {
    pub fn suffix(self) -> (res: &'static str)
        ensures
            res@ == component_suffix(self),
    {
        match self {
            FanComponent::Min => "_min",
            FanComponent::Max => "_max",
            FanComponent::Input => "_input",
            FanComponent::Output => "_output",
            FanComponent::Manual => "_manual",
        }
    }

    pub fn description(self) -> (res: &'static str)
        ensures
            res@ == component_description(self),
    {
        match self {
            FanComponent::Min => "min speed",
            FanComponent::Max => "max speed",
            FanComponent::Input => "current/input speed",
            FanComponent::Output => "target/output speed",
            FanComponent::Manual => "manual control",
        }
    }

    /// The path of this component's file for the fan at `base`, whose path
    /// must have a file name.
    pub fn to_path(self, base: &str) -> (res: String)
        requires
            path_file_name(base@) is Some,
        ensures
            res@ == component_path(self, base@),
    {
        match file_name_of(base) {
            Some(name) => {
                let mut name = name;
                name.append(self.suffix());
                with_file_name(base, name.as_str())
            },
            None => String::new(),
        }
    }

    /// The path of this component's file for the fan at `base`, or nothing
    /// when `base` has no file name.
    pub fn try_to_path(self, base: &str) -> (res: Option<String>)
        ensures
            path_file_name(base@) is None ==> res is None,
            path_file_name(base@) is Some ==> (res matches Some(p) && p@ == component_path(self, base@)),
    {
        match file_name_of(base) {
            Some(_) => Some(self.to_path(base)),
            None => None,
        }
    }
}

/// `speed` brought into `[min, max]` (what `u32::clamp` does when `min <= max`).
pub open spec fn clamp_speed(speed: u32, min: u32, max: u32) -> u32 {
    if speed < min {
        min
    } else if speed > max {
        max
    } else {
        speed
    }
}

/// The speed to write for a request of `speed`, or nothing when the clamped
/// speed is already the current one.
pub open spec fn speed_request(current: Option<u32>, min: u32, max: u32, speed: u32) -> Option<u32> {
    let s = clamp_speed(speed, min, max);
    if current == Some(s) {
        None
    } else {
        Some(s)
    }
}

/// Whether writing `speed` starts a new settling window: when the direction
/// of change differs from that of the current ramp, or when there is no ramp
/// to continue.
pub open spec fn starts_new_ramp(current: Option<u32>, ramp_start: Option<u32>, speed: u32) -> bool {
    match (current, ramp_start) {
        (Some(c), Some(r)) => (r < c) != (c < speed),
        _ => true,
    }
}

/// What to drive a fan at for a temperature.
#[derive(Debug, Clone, Copy, PartialEq, Eq, Structural)]
pub enum SpeedPlan {
    /// Exactly this speed.
    Fixed(u32),
    /// `min_speed` plus the curve's fraction of `speed_span`, where the curve
    /// is evaluated at `temp_offset` degrees into a range of `temp_span`.
    Curve { curve: SpeedCurve, temp_offset: u32, temp_span: u32, speed_span: u32, min_speed: u32 },
}

/// The plan for `temp`: full speed when the fan is configured so or the
/// temperature reaches the high temperature, minimum speed at or below the
/// low temperature, the configured curve in between.
pub open spec fn speed_plan(config: FanConfig, min: u32, max: u32, temp: u8) -> SpeedPlan {
    if config.always_full_speed {
        SpeedPlan::Fixed(max)
    } else if temp <= config.low_temp {
        SpeedPlan::Fixed(min)
    } else if temp >= config.high_temp {
        SpeedPlan::Fixed(max)
    } else {
        SpeedPlan::Curve {
            curve: config.speed_curve,
            temp_offset: (temp - config.low_temp) as u32,
            temp_span: (config.high_temp - config.low_temp) as u32,
            speed_span: (max - min) as u32,
            min_speed: min,
        }
    }
}

/// How a measured speed compares to the target.
#[derive(Debug, Clone, Copy, PartialEq, Eq, Structural)]
pub enum SpeedCheck {
    /// No speed has been written yet; nothing to compare.
    NotDriven,
    /// The fan turns slower than the stall threshold.
    Stalled,
    /// The fan is still within its settling time.
    Settling,
    /// The fan turns outside `[lower, upper]`.
    OutOfTolerance { lower: u32, upper: u32 },
    /// The fan turns within the tolerance band of the target.
    InTolerance,
}

/// The verdict on a measured speed `actual`: stalls are reported first, then
/// a settling fan is left alone, then the speed is held against the band of
/// `tolerance` around the target (saturating at the ends of `u32`).
pub open spec fn speed_check(
    current: Option<u32>,
    actual: u32,
    stall_threshold: u32,
    settling: bool,
    tolerance: u32,
) -> SpeedCheck {
    match current {
        None => SpeedCheck::NotDriven,
        Some(target) => {
            let lower = if target >= tolerance { (target - tolerance) as u32 } else { 0 };
            let upper = if target + tolerance <= u32::MAX { (target + tolerance) as u32 } else { u32::MAX };
            if actual < stall_threshold {
                SpeedCheck::Stalled
            } else if settling {
                SpeedCheck::Settling
            } else if actual < lower || actual > upper {
                SpeedCheck::OutOfTolerance { lower, upper }
            } else {
                SpeedCheck::InTolerance
            }
        },
    }
}

/// The state of one fan: its configuration, the speed range it reports,
/// the speed last written and the speed its current ramp started from.
#[derive(Debug, Clone, Copy)]
pub struct FanController {
    config: FanConfig,
    current_speed: Option<u32>,
    ramp_start_speed: Option<u32>,
    min_speed: u32,
    max_speed: u32,
}

impl FanController {
    pub closed spec fn cfg(&self) -> FanConfig {
        self.config
    }

    pub closed spec fn current(&self) -> Option<u32> {
        self.current_speed
    }

    pub closed spec fn ramp_start(&self) -> Option<u32> {
        self.ramp_start_speed
    }

    pub closed spec fn min(&self) -> u32 {
        self.min_speed
    }

    pub closed spec fn max(&self) -> u32 {
        self.max_speed
    }

    /// A fan that has not been driven yet.
    pub fn new(config: FanConfig, min_speed: u32, max_speed: u32) -> (res: Self)
        ensures
            res.cfg() == config,
            res.min() == min_speed,
            res.max() == max_speed,
            res.current() is None,
            res.ramp_start() is None,
    {
        FanController { config, current_speed: None, ramp_start_speed: None, min_speed, max_speed }
    }

    pub fn config(&self) -> (res: FanConfig)
        ensures
            res == self.cfg(),
    {
        self.config
    }

    pub fn current_speed(&self) -> (res: Option<u32>)
        ensures
            res == self.current(),
    {
        self.current_speed
    }

    pub fn ramp_start_speed(&self) -> (res: Option<u32>)
        ensures
            res == self.ramp_start(),
    {
        self.ramp_start_speed
    }

    pub fn min_speed(&self) -> (res: u32)
        ensures
            res == self.min(),
    {
        self.min_speed
    }

    pub fn max_speed(&self) -> (res: u32)
        ensures
            res == self.max(),
    {
        self.max_speed
    }

    /// The speed to write for a request of `speed`: clamped into the fan's
    /// range, and nothing when that is already the current speed.
    pub fn speed_to_write(&self, speed: u32) -> (res: Option<u32>)
        requires
            self.min() <= self.max(),
        ensures
            res == speed_request(self.current(), self.min(), self.max(), speed),
    {
        let speed = if speed < self.min_speed {
            self.min_speed
        } else if speed > self.max_speed {
            self.max_speed
        } else {
            speed
        };
        if self.current_speed == Some(speed) {
            None
        } else {
            Some(speed)
        }
    }

    /// Records that `speed` was written; tells whether a new settling window
    /// starts with it, in which case the ramp now starts from the speed that
    /// was current before.
    pub fn record_written_speed(&mut self, speed: u32) -> (new_ramp: bool)
        ensures
            new_ramp == starts_new_ramp(old(self).current(), old(self).ramp_start(), speed),
            final(self).current() == Some(speed),
            final(self).ramp_start() == (if new_ramp {
                old(self).current()
            } else {
                old(self).ramp_start()
            }),
            final(self).cfg() == old(self).cfg(),
            final(self).min() == old(self).min(),
            final(self).max() == old(self).max(),
    {
        let starting_new_ramp = match (self.current_speed, self.ramp_start_speed) {
            (Some(current), Some(ramp_start)) => {
                let was_going_up = ramp_start < current;
                let now_going_up = current < speed;
                was_going_up != now_going_up
            },
            _ => true,
        };
        if starting_new_ramp {
            self.ramp_start_speed = self.current_speed;
        }
        self.current_speed = Some(speed);
        starting_new_ramp
    }

    /// The plan for driving the fan at `temp` (see `speed_plan`). The speed
    /// range matters only for a curve, which needs `min <= max`.
    pub fn calc_speed(&self, temp: u8) -> (res: SpeedPlan)
        requires
            self.min() <= self.max() || self.cfg().always_full_speed || temp <= self.cfg().low_temp
                || temp >= self.cfg().high_temp,
        ensures
            res == speed_plan(self.cfg(), self.min(), self.max(), temp),
    {
        if self.config.always_full_speed {
            return SpeedPlan::Fixed(self.max_speed);
        }
        if temp <= self.config.low_temp {
            return SpeedPlan::Fixed(self.min_speed);
        }
        if temp >= self.config.high_temp {
            return SpeedPlan::Fixed(self.max_speed);
        }
        let temp = temp as u32;
        let low_temp = self.config.low_temp as u32;
        let high_temp = self.config.high_temp as u32;
        SpeedPlan::Curve {
            curve: self.config.speed_curve,
            temp_offset: temp - low_temp,
            temp_span: high_temp - low_temp,
            speed_span: self.max_speed - self.min_speed,
            min_speed: self.min_speed,
        }
    }

    /// How far the current ramp moves the speed: the distance between the
    /// current speed and the speed the ramp started from, when both exist.
    pub fn ramp_delta(&self) -> (res: Option<u32>)
        ensures
            res == (match (self.current(), self.ramp_start()) {
                (Some(c), Some(r)) => Some(if c >= r { (c - r) as u32 } else { (r - c) as u32 }),
                _ => None::<u32>,
            }),
    {
        match (self.current_speed, self.ramp_start_speed) {
            (Some(c), Some(r)) => Some(if c >= r { c - r } else { r - c }),
            _ => None,
        }
    }

    /// The verdict on a measured speed (see `speed_check`), given the stall
    /// threshold, whether the fan is still settling, and the tolerance in RPM.
    pub fn classify_speed(&self, actual: u32, stall_threshold: u32, settling: bool, tolerance_rpm: u32) -> (res: SpeedCheck)
        ensures
            res == speed_check(self.current(), actual, stall_threshold, settling, tolerance_rpm),
    {
        let target = match self.current_speed {
            Some(t) => t,
            None => return SpeedCheck::NotDriven,
        };
        if actual < stall_threshold {
            return SpeedCheck::Stalled;
        }
        if settling {
            return SpeedCheck::Settling;
        }
        let lower = target.saturating_sub(tolerance_rpm);
        let upper = target.saturating_add(tolerance_rpm);
        if actual < lower || actual > upper {
            SpeedCheck::OutOfTolerance { lower, upper }
        } else {
            SpeedCheck::InTolerance
        }
    }
}

/// Reads the text of a fan's `_min` file: surrounding whitespace is dropped
/// and the rest must be a `u32`.
pub fn parse_min_speed(text: &str) -> (res: Result<u32, Error>)
    ensures
        match parsed_unsigned(trimmed(text@), u32::MAX as nat) {
            Some(v) => res == Ok::<u32, Error>(v as u32),
            None => res matches Err(Error::MinSpeedParse(_)),
        },
{
    match parse_u32(trim(text)) {
        Ok(v) => Ok(v),
        Err(e) => Err(Error::MinSpeedParse(e)),
    }
}

/// Reads the text of a fan's `_max` file: surrounding whitespace is dropped
/// and the rest must be a `u32`.
pub fn parse_max_speed(text: &str) -> (res: Result<u32, Error>)
    ensures
        match parsed_unsigned(trimmed(text@), u32::MAX as nat) {
            Some(v) => res == Ok::<u32, Error>(v as u32),
            None => res matches Err(Error::MaxSpeedParse(_)),
        },
{
    match parse_u32(trim(text)) {
        Ok(v) => Ok(v),
        Err(e) => Err(Error::MaxSpeedParse(e)),
    }
}

/// Reads the text of a fan's `_input` file: trailing whitespace is dropped
/// and the rest must be a `u32`.
pub fn parse_actual_speed(text: &str) -> (res: Result<u32, Error>)
    ensures
        match parsed_unsigned(trimmed_end(text@), u32::MAX as nat) {
            Some(v) => res == Ok::<u32, Error>(v as u32),
            None => res matches Err(Error::ActualSpeedParse(_)),
        },
{
    match parse_u32(trim_end(text)) {
        Ok(v) => Ok(v),
        Err(e) => Err(Error::ActualSpeedParse(e)),
    }
}

/// A requested speed is always written within the fan's range.
pub proof fn lemma_requested_speed_in_range(current: Option<u32>, min: u32, max: u32, speed: u32)
    requires
        min <= max,
    ensures
        speed_request(current, min, max, speed) matches Some(s) ==> min <= s <= max,
{
}

/// Asking twice for the same speed writes it once: after the first request
/// is written, the second finds nothing to write.
pub proof fn lemma_repeated_request_writes_nothing(current: Option<u32>, min: u32, max: u32, speed: u32)
    requires
        min <= max,
    ensures
        speed_request(current, min, max, speed) matches Some(s) ==> speed_request(Some(s), min, max, speed) is None,
        speed_request(current, min, max, speed) is None ==> current == Some(clamp_speed(speed, min, max)),
{
}

/// The plan is the fan's minimum at or below the low temperature and its
/// maximum at or above the high temperature (or always, at full speed); in
/// between it is a curve evaluated strictly inside the temperature range.
pub proof fn lemma_speed_plan_bounds(config: FanConfig, min: u32, max: u32, temp: u8)
    requires
        min <= max,
    ensures
        speed_plan(config, min, max, temp) matches SpeedPlan::Fixed(s) ==> (s == min || s == max),
        speed_plan(config, min, max, temp) matches SpeedPlan::Curve { temp_offset, temp_span, speed_span, min_speed, .. }
            ==> 0 < temp_offset < temp_span && min_speed + speed_span == max,
        !config.always_full_speed && temp <= config.low_temp ==> speed_plan(config, min, max, temp) == SpeedPlan::Fixed(min),
        config.always_full_speed || (temp > config.low_temp && temp >= config.high_temp) ==> speed_plan(config, min, max, temp)
            == SpeedPlan::Fixed(max),
{
}

/// A settling window is only restarted when the direction of change turns,
/// or from a settled state; stepping on in the same direction continues the
/// current window.
pub proof fn lemma_ramp_restarts_on_turns(current: Option<u32>, ramp_start: Option<u32>, speed: u32)
    ensures
        current is None || ramp_start is None ==> starts_new_ramp(current, ramp_start, speed),
        (current matches Some(c) && ramp_start matches Some(r) && r < c && c < speed) ==> !starts_new_ramp(
            current,
            ramp_start,
            speed,
        ),
        (current matches Some(c) && ramp_start matches Some(r) && c <= r && speed <= c) ==> !starts_new_ramp(
            current,
            ramp_start,
            speed,
        ),
        (current matches Some(c) && ramp_start matches Some(r) && r < c && speed <= c) ==> starts_new_ramp(
            current,
            ramp_start,
            speed,
        ),
        (current matches Some(c) && ramp_start matches Some(r) && c <= r && c < speed) ==> starts_new_ramp(
            current,
            ramp_start,
            speed,
        ),
{
}

/// A stall is reported as soon as it is seen, settling or not.
pub proof fn lemma_stall_reported_while_settling(
    target: u32,
    actual: u32,
    stall_threshold: u32,
    settling: bool,
    tolerance: u32,
)
    requires
        actual < stall_threshold,
    ensures
        speed_check(Some(target), actual, stall_threshold, settling, tolerance) == SpeedCheck::Stalled,
{
}

/// Between the low and the high temperature a fan that is not held at full
/// speed follows the curve it is configured with, evaluated at how far the
/// temperature lies above the low temperature, over the width of the
/// temperature range, across the fan's whole speed range.
pub proof fn lemma_curve_follows_configuration(config: FanConfig, min: u32, max: u32, temp: u8)
    requires
        min <= max,
        !config.always_full_speed,
        config.low_temp < temp < config.high_temp,
    ensures
        speed_plan(config, min, max, temp) matches SpeedPlan::Curve { curve, temp_offset, temp_span, speed_span, min_speed }
            && curve == config.speed_curve
            && config.low_temp + temp_offset == temp
            && config.low_temp + temp_span == config.high_temp
            && min_speed == min
            && min_speed + speed_span == max,
{
}

/// A request inside the fan's range is written as it is (unless it is the
/// current speed); a request below the range is written as the minimum and
/// one above as the maximum.
pub proof fn lemma_clamp_only_outside_range(current: Option<u32>, min: u32, max: u32, speed: u32)
    requires
        min <= max,
    ensures
        min <= speed <= max ==> clamp_speed(speed, min, max) == speed,
        min <= speed <= max && current != Some(speed) ==> speed_request(current, min, max, speed) == Some(speed),
        min <= speed <= max && current == Some(speed) ==> speed_request(current, min, max, speed) is None,
        speed < min ==> clamp_speed(speed, min, max) == min,
        speed > max ==> clamp_speed(speed, min, max) == max,
        min <= clamp_speed(speed, min, max) <= max,
{
}

/// A fan that is settling and not stalled is left alone: it is never judged
/// in or out of tolerance, whether it turns above or below its target.
pub proof fn lemma_settling_fan_left_alone(target: u32, actual: u32, stall_threshold: u32, tolerance: u32)
    requires
        actual >= stall_threshold,
    ensures
        speed_check(Some(target), actual, stall_threshold, true, tolerance) == SpeedCheck::Settling,
{
}

/// A speed judged in tolerance lies within the tolerance of the target.
pub proof fn lemma_in_tolerance_is_close(target: u32, actual: u32, stall_threshold: u32, tolerance: u32)
    ensures
        speed_check(Some(target), actual, stall_threshold, false, tolerance) == SpeedCheck::InTolerance
            ==> target - tolerance <= actual <= target + tolerance,
        speed_check(Some(target), actual, stall_threshold, false, tolerance) == SpeedCheck::InTolerance
            ==> actual >= stall_threshold,
{
}

} // verus!
