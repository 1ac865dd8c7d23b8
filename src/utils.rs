//! Small helpers: a seeded pseudo-random generator, file extensions, and a
//! timer for measuring sections of code.
use vstd::prelude::*;

use crate::time::{instant_now, nanos_since};

verus! {

/// Multiplier of the linear congruential generator.
pub const LCG_MULTIPLIER: u64 = 6364136223846793005;

/// Relies on std::time::SystemTime::now and duration_since(UNIX_EPOCH):
/// nanoseconds since the Unix epoch (0 for a clock set before it).
#[verifier::external_body]
fn unix_time_nanos() -> u64 {
    std::time::SystemTime::now().duration_since(std::time::UNIX_EPOCH).map(
        |d| d.as_nanos() as u64,
    ).unwrap_or(0)
}

/// A seed taken from the current time.
pub fn generate_seed() -> u64 {
    unix_time_nanos()
}

/// The state that follows `s`.
pub open spec fn lcg_next(s: u64) -> u64 {
    s.wrapping_mul(LCG_MULTIPLIER).wrapping_add(1)
}

/// The state that a seed starts from: the seed itself, but 1 for seed 0.
pub open spec fn seeded(seed: u64) -> u64 {
    if seed == 0 {
        1
    } else {
        seed
    }
}

/// A linear congruential pseudo-random generator.
pub struct Random {
    state: u64,
}

impl View for Random {
    type V = u64;

    closed spec fn view(&self) -> u64 {
        self.state
    }
}

impl Random {
    pub fn new(seed: u64) -> (r: Self)
        ensures
            r@ == seeded(seed),
    {
        Random { state: if seed == 0 { 1 } else { seed } }
    }

    /// A generator seeded from the current time.
    pub fn from_time() -> (r: Self)
        ensures
            r@ != 0,
    {
        Self::new(generate_seed())
    }

    /// Advances the state and returns it.
    pub fn next(&mut self) -> (r: u64)
        ensures
            final(self)@ == lcg_next(old(self)@),
            r == final(self)@,
    {
        self.state = self.state.wrapping_mul(LCG_MULTIPLIER).wrapping_add(1);
        self.state
    }

    /// A value in `min..max`: `min` plus the next state modulo the width of the range.
    pub fn gen_range_i32(&mut self, min: i32, max: i32) -> (r: i32)
        requires
            min < max,
        ensures
            final(self)@ == lcg_next(old(self)@),
            r == min + (final(self)@ as int) % (max - min),
            min <= r < max,
    {
        let width = (max as i64 - min as i64) as u64;
        let v = self.next();
        let off = v % width;
        (min as i64 + off as i64) as i32
    }

    /// A coin flip: the lowest bit of the next state.
    pub fn gen_bool(&mut self) -> (r: bool)
        ensures
            final(self)@ == lcg_next(old(self)@),
            r == (final(self)@ % 2 == 1),
    {
        let v = self.next();
        assert(v & 1 == v % 2) by (bit_vector);
        (v & 1) == 1
    }
}

/// What `std::path::Path::extension` gives for a path.
pub uninterp spec fn extension_of(path: Seq<char>) -> Option<Seq<char>>;

/// What `str::to_lowercase` gives for a string.
pub uninterp spec fn lower_of(s: Seq<char>) -> Seq<char>;

/// Relies on std::path::Path::extension: the part of the file name after its
/// last dot; none where the file name has no dot but a leading one.
#[verifier::external_body]
fn path_extension(path: &str) -> (r: Option<String>)
    ensures
        r.is_some() == extension_of(path@).is_some(),
        r.is_some() ==> r.unwrap()@ == extension_of(path@).unwrap(),
        !path@.contains('.') ==> r.is_none(),
{
    std::path::Path::new(path).extension().and_then(|s| s.to_str()).map(|s| s.to_string())
}

/// Relies on str::to_lowercase: the lowercase form, which depends on the characters alone.
#[verifier::external_body]
fn lowercase(s: &str) -> (r: String)
    ensures
        r@ == lower_of(s@),
        s@.len() == 0 ==> r@.len() == 0,
{
    s.to_lowercase()
}

/// The extension of the file that `path` names, in lower case.
pub fn get_extension(path: &str) -> (r: Option<String>)
    ensures
        r.is_some() == extension_of(path@).is_some(),
        r.is_some() ==> r.unwrap()@ == lower_of(extension_of(path@).unwrap()),
        !path@.contains('.') ==> r.is_none(),
{
    match path_extension(path) {
        Some(ext) => Some(lowercase(ext.as_str())),
        None => None,
    }
}

/// Measures the time spent in a named section of code.
pub struct Profiler {
    start: std::time::Instant,
    name: String,
}

impl Profiler {
    /// Starts measuring the section `name`.
    pub fn start(name: String) -> (r: Self)
        ensures
            r.name()@ == name@,
    {
        Profiler { start: instant_now(), name }
    }

    pub closed spec fn name(&self) -> String {
        self.name
    }

    /// The section's name.
    pub fn label(&self) -> (r: &str)
        ensures
            r@ == self.name()@,
    {
        self.name.as_str()
    }

    /// Stops measuring; returns the nanoseconds spent.
    pub fn stop(self) -> u64 {
        nanos_since(&self.start)
    }

    /// Nanoseconds since the start, without stopping.
    pub fn elapsed(&self) -> u64 {
        nanos_since(&self.start)
    }
}

/// Runs `f` as a section named `name` and returns its result.
pub fn profile<F: FnOnce() -> R, R>(name: &str, f: F) -> (r: R)
    requires
        f.requires(()),
    ensures
        f.ensures((), r),
{
    let profiler = Profiler::start(name.to_owned());
    let r = f();
    profiler.stop();
    r
}

} // verus!
