//! Instruction-set widths and the tracker that widens the width as a trace
//! crosses its configured offsets.

use crate::decode::valid_bitness;
use vstd::prelude::*;

verus! {

/// An instruction-set width.
#[derive(Copy, Clone, Debug, PartialEq, Eq, Structural)]
pub enum Width {
    Width16,
    Width32,
    Width64,
}

/// Why a configuration cannot be used.
#[derive(Copy, Clone, Debug, PartialEq, Eq, Structural)]
pub enum ConfigError {
    /// The requested bitness is none of 16, 32, 64.
    InvalidBits(u8),
    /// The target is 32 or 64 bits and no 32-bit transition offset was given.
    MissingOffset32,
    /// The target is 64 bits and no 64-bit transition offset was given.
    MissingOffset64,
}

impl Width {
    /// The width in bits.
    pub open spec fn spec_bits(self) -> u32 {
        match self {
            Width::Width16 => 16,
            Width::Width32 => 32,
            Width::Width64 => 64,
        }
    }

    /// The width in bits.
    #[verifier::when_used_as_spec(spec_bits)]
    pub fn bits(self) -> (b: u32)
        ensures
            b == self.spec_bits(),
            valid_bitness(b),
    {
        match self {
            Width::Width16 => 16,
            Width::Width32 => 32,
            Width::Width64 => 64,
        }
    }

    /// The width of `bits` bits, if there is one.
    pub fn from_bits(bits: u8) -> (w: Option<Width>)
        ensures
            match w {
                Some(w) => w.bits() == bits,
                None => !valid_bitness(bits as u32),
            },
    {
        if bits == 16 {
            Some(Width::Width16)
        } else if bits == 32 {
            Some(Width::Width32)
        } else if bits == 64 {
            Some(Width::Width64)
        } else {
            None
        }
    }
}

/// What a tracker is configured with: the width to end at, and the trace
/// offsets at which 32-bit and 64-bit code begin.
#[derive(Copy, Clone, Debug)]
pub struct Transitions {
    pub target: Width,
    pub offset_32bit: Option<u64>,
    pub offset_64bit: Option<u64>,
}

impl Transitions {
    /// Every offset that the target calls for is there.
    pub open spec fn complete(self) -> bool {
        &&& self.target != Width::Width16 ==> self.offset_32bit is Some
        &&& self.target == Width::Width64 ==> self.offset_64bit is Some
    }

    /// The configuration error of an incomplete configuration.
    pub open spec fn check(self) -> Result<(), ConfigError> {
        if self.target != Width::Width16 && self.offset_32bit is None {
            Err(ConfigError::MissingOffset32)
        } else if self.target == Width::Width64 && self.offset_64bit is None {
            Err(ConfigError::MissingOffset64)
        } else {
            Ok(())
        }
    }

    /// Checks that every offset the target calls for was supplied.
    pub fn new(target: Width, offset_32bit: Option<u64>, offset_64bit: Option<u64>) -> (r: Result<
        Transitions,
        ConfigError,
    >)
        ensures
            match r {
                Ok(t) => t == (Transitions { target, offset_32bit, offset_64bit }) && t.complete(),
                Err(e) => (Transitions { target, offset_32bit, offset_64bit }).check() == Err::<
                    (),
                    ConfigError,
                >(e),
            },
    {
        match target {
            Width::Width16 => {},
            Width::Width32 => {
                if offset_32bit.is_none() {
                    return Err(ConfigError::MissingOffset32);
                }
            },
            Width::Width64 => {
                if offset_32bit.is_none() {
                    return Err(ConfigError::MissingOffset32);
                }
                if offset_64bit.is_none() {
                    return Err(ConfigError::MissingOffset64);
                }
            },
        }
        Ok(Transitions { target, offset_32bit, offset_64bit })
    }
}

/// The width for the record at `offset`, when the record before it was
/// decoded at `current`. A transition fires only on the record whose offset
/// equals the configured one, and at most one fires per record.
pub open spec fn step(t: Transitions, current: Width, offset: u64) -> Width {
    match current {
        Width::Width16 => if t.target != Width::Width16 && t.offset_32bit == Some(offset) {
            Width::Width32
        } else {
            Width::Width16
        },
        Width::Width32 => if t.target == Width::Width64 && t.offset_64bit == Some(offset) {
            Width::Width64
        } else {
            Width::Width32
        },
        Width::Width64 => Width::Width64,
    }
}

/// The width at which the last record of a stream with these offsets is
/// decoded; 16 bits before any record.
pub open spec fn width_after(t: Transitions, offsets: Seq<u64>) -> Width
    decreases offsets.len(),
{
    if offsets.len() == 0 {
        Width::Width16
    } else {
        step(t, width_after(t, offsets.drop_last()), offsets.last())
    }
}

/// The width of each record of a stream with these offsets.
pub open spec fn resolved_widths(t: Transitions, offsets: Seq<u64>) -> Seq<Width> {
    Seq::new(offsets.len(), |i: int| width_after(t, offsets.take(i + 1)))
}

/// Tracks the width of the record being processed.
#[derive(Copy, Clone, Debug)]
pub struct BitnessTracker {
    transitions: Transitions,
    current: Width,
}

impl BitnessTracker {
    /// The configuration the tracker was made with.
    pub closed spec fn transitions(&self) -> Transitions {
        self.transitions
    }

    /// The width of the record last resolved; 16 bits before the first.
    pub closed spec fn spec_width(&self) -> Width {
        self.current
    }

    /// A tracker in its initial state, or the configuration error.
    pub fn new(target: Width, offset_32bit: Option<u64>, offset_64bit: Option<u64>) -> (r: Result<
        BitnessTracker,
        ConfigError,
    >)
        ensures
            match r {
                Ok(tracker) => {
                    &&& tracker.transitions() == (Transitions { target, offset_32bit, offset_64bit })
                    &&& tracker.transitions().complete()
                    &&& tracker.width() == Width::Width16
                },
                Err(e) => (Transitions { target, offset_32bit, offset_64bit }).check() == Err::<
                    (),
                    ConfigError,
                >(e),
            },
    {
        match Transitions::new(target, offset_32bit, offset_64bit) {
            Ok(transitions) => Ok(BitnessTracker { transitions, current: Width::Width16 }),
            Err(e) => Err(e),
        }
    }

    /// The width of the record last resolved.
    #[verifier::when_used_as_spec(spec_width)]
    pub fn width(&self) -> (w: Width)
        ensures
            w == self.spec_width(),
    {
        self.current
    }

    /// Moves on to the record at `offset` and returns the width to decode it at.
    pub fn resolve(&mut self, offset: u64) -> (w: Width)
        ensures
            w == step(old(self).transitions(), old(self).width(), offset),
            final(self).width() == w,
            final(self).transitions() == old(self).transitions(),
    {
        let next = match self.current {
            Width::Width16 => {
                if self.transitions.target != Width::Width16 && is_offset(
                    self.transitions.offset_32bit,
                    offset,
                ) {
                    Width::Width32
                } else {
                    Width::Width16
                }
            },
            Width::Width32 => {
                if self.transitions.target == Width::Width64 && is_offset(
                    self.transitions.offset_64bit,
                    offset,
                ) {
                    Width::Width64
                } else {
                    Width::Width32
                }
            },
            Width::Width64 => Width::Width64,
        };
        self.current = next;
        next
    }
}

/// Whether `configured` is exactly `offset`.
fn is_offset(configured: Option<u64>, offset: u64) -> (b: bool)
    ensures
        b == (configured == Some(offset)),
{
    match configured {
        Some(o) => o == offset,
        None => false,
    }
}

/// Resolves the width of every record of a stream with these offsets.
pub fn resolve_widths(
    target: Width,
    offset_32bit: Option<u64>,
    offset_64bit: Option<u64>,
    offsets: &[u64],
) -> (r: Result<Vec<Width>, ConfigError>)
    ensures
        match r {
            Ok(widths) => {
                &&& (Transitions { target, offset_32bit, offset_64bit }).complete()
                &&& widths@ == resolved_widths(
                    Transitions { target, offset_32bit, offset_64bit },
                    offsets@,
                )
            },
            Err(e) => (Transitions { target, offset_32bit, offset_64bit }).check() == Err::<
                (),
                ConfigError,
            >(e),
        },
{
    let mut tracker = match BitnessTracker::new(target, offset_32bit, offset_64bit) {
        Ok(tracker) => tracker,
        Err(e) => {
            return Err(e);
        },
    };
    let ghost t = Transitions { target, offset_32bit, offset_64bit };
    let mut widths: Vec<Width> = Vec::new();
    let mut i: usize = 0;
    while i < offsets.len()
        invariant
            i <= offsets.len(),
            tracker.transitions() == t,
            tracker.width() == width_after(t, offsets@.take(i as int)),
            widths@.len() == i,
            forall|k: int| 0 <= k < i ==> widths@[k] == width_after(t, #[trigger] offsets@.take(k + 1)),
        decreases offsets.len() - i,
    {
        proof {
            let next = offsets@.take(i + 1);
            assert(next.drop_last() =~= offsets@.take(i as int));
        }
        let w = tracker.resolve(offsets[i]);
        widths.push(w);
        i += 1;
    }
    assert(widths@ =~= resolved_widths(t, offsets@));
    Ok(widths)
}

/// Some record of the stream sits exactly at the 32-bit offset, and the
/// target is wider than 16 bits.
pub open spec fn meets_offset_32(t: Transitions, offsets: Seq<u64>) -> bool {
    &&& t.target != Width::Width16
    &&& exists|i: int| 0 <= i < offsets.len() && t.offset_32bit == Some(#[trigger] offsets[i])
}

/// Some record of the stream sits exactly at the 32-bit offset and a later
/// one exactly at the 64-bit offset, and the target is 64 bits.
pub open spec fn meets_offset_64(t: Transitions, offsets: Seq<u64>) -> bool {
    &&& t.target == Width::Width64
    &&& exists|i: int, j: int|
        0 <= i < j < offsets.len() && t.offset_32bit == Some(#[trigger] offsets[i])
            && t.offset_64bit == Some(#[trigger] offsets[j])
}

/// A step never narrows the width, never passes the target, and leaves a
/// width that has reached the target where it is.
pub proof fn lemma_step_widens(t: Transitions, current: Width, offset: u64)
    ensures
        current.bits() <= step(t, current, offset).bits(),
        current.bits() <= t.target.bits() ==> step(t, current, offset).bits() <= t.target.bits(),
        current == t.target ==> step(t, current, offset) == current,
{
}

/// The width of a stream never passes the target.
pub proof fn lemma_width_within_target(t: Transitions, offsets: Seq<u64>)
    ensures
        width_after(t, offsets).bits() <= t.target.bits(),
    decreases offsets.len(),
{
    if offsets.len() > 0 {
        lemma_width_within_target(t, offsets.drop_last());
    }
}

/// Along a stream the width is monotonically non-decreasing: a later record
/// is never decoded at a narrower width than an earlier one.
pub proof fn lemma_widths_never_narrow(t: Transitions, offsets: Seq<u64>, i: int, j: int)
    requires
        0 <= i <= j < offsets.len(),
    ensures
        resolved_widths(t, offsets)[i].bits() <= resolved_widths(t, offsets)[j].bits(),
        resolved_widths(t, offsets)[j].bits() <= t.target.bits(),
    decreases j - i,
{
    lemma_width_within_target(t, offsets.take(j + 1));
    if i < j {
        lemma_widths_never_narrow(t, offsets, i, j - 1);
        assert(offsets.take(j + 1).drop_last() =~= offsets.take(j));
    }
}

/// Once a record is decoded at the target width, so is every later one.
pub proof fn lemma_target_is_final(t: Transitions, offsets: Seq<u64>, i: int, j: int)
    requires
        0 <= i <= j < offsets.len(),
        resolved_widths(t, offsets)[i] == t.target,
    ensures
        resolved_widths(t, offsets)[j] == t.target,
{
    lemma_widths_never_narrow(t, offsets, i, j);
}

/// The width of a stream in closed form. It is 64 bits exactly when the
/// target is 64 bits and some record sits at the 32-bit offset with a later
/// one at the 64-bit offset; else 32 bits exactly when the target is wider
/// than 16 bits and some record sits at the 32-bit offset; else 16 bits.
pub proof fn lemma_width_after_closed_form(t: Transitions, offsets: Seq<u64>)
    ensures
        width_after(t, offsets) == if meets_offset_64(t, offsets) {
            Width::Width64
        } else if meets_offset_32(t, offsets) {
            Width::Width32
        } else {
            Width::Width16
        },
    decreases offsets.len(),
{
    if offsets.len() > 0 {
        let before = offsets.drop_last();
        let last = offsets.last();
        let n = offsets.len() as int;
        lemma_width_after_closed_form(t, before);
        assert(forall|i: int| 0 <= i < n - 1 ==> before[i] == offsets[i]);
        if meets_offset_32(t, before) {
            let i = choose|i: int| 0 <= i < before.len() && t.offset_32bit == Some(#[trigger] before[i]);
            assert(t.offset_32bit == Some(offsets[i]));
            assert(meets_offset_32(t, offsets));
            if t.target == Width::Width64 && t.offset_64bit == Some(last) {
                assert(t.offset_64bit == Some(offsets[n - 1]));
                assert(meets_offset_64(t, offsets));
            }
        }
        if meets_offset_64(t, before) {
            let (i, j) = choose|i: int, j: int|
                0 <= i < j < before.len() && t.offset_32bit == Some(#[trigger] before[i])
                    && t.offset_64bit == Some(#[trigger] before[j]);
            assert(t.offset_32bit == Some(offsets[i]) && t.offset_64bit == Some(offsets[j]));
            assert(meets_offset_64(t, offsets));
        }
        if meets_offset_32(t, offsets) && !meets_offset_32(t, before) {
            let i = choose|i: int| 0 <= i < offsets.len() && t.offset_32bit == Some(#[trigger] offsets[i]);
            if i < n - 1 {
                assert(t.offset_32bit == Some(before[i]));
            }
            assert(i == n - 1);
        }
        if meets_offset_64(t, offsets) && !meets_offset_64(t, before) {
            let (i, j) = choose|i: int, j: int|
                0 <= i < j < offsets.len() && t.offset_32bit == Some(#[trigger] offsets[i])
                    && t.offset_64bit == Some(#[trigger] offsets[j]);
            assert(t.offset_32bit == Some(before[i]));
            assert(meets_offset_32(t, before));
            if j < n - 1 {
                assert(t.offset_64bit == Some(before[j]));
            }
            assert(j == n - 1);
        }
        if t.target != Width::Width16 && t.offset_32bit == Some(last) {
            assert(t.offset_32bit == Some(offsets[n - 1]));
            assert(meets_offset_32(t, offsets));
        }
    }
}

/// Transitions fire on equality only: where no record sits exactly at the
/// 32-bit offset, every record is decoded at 16 bits, however far the
/// offsets run past the configured one.
pub proof fn lemma_missed_offset_stays_16(t: Transitions, offsets: Seq<u64>)
    requires
        forall|i: int| 0 <= i < offsets.len() ==> t.offset_32bit != Some(#[trigger] offsets[i]),
    ensures
        forall|i: int|
            0 <= i < offsets.len() ==> #[trigger] resolved_widths(t, offsets)[i] == Width::Width16,
{
    assert forall|i: int| 0 <= i < offsets.len() implies #[trigger] resolved_widths(t, offsets)[i]
        == Width::Width16 by {
        let prefix = offsets.take(i + 1);
        lemma_width_after_closed_form(t, prefix);
        assert(forall|k: int| 0 <= k < prefix.len() ==> prefix[k] == offsets[k]);
        if meets_offset_32(t, prefix) {
            let k = choose|k: int| 0 <= k < prefix.len() && t.offset_32bit == Some(#[trigger] prefix[k]);
            assert(t.offset_32bit == Some(offsets[k]));
        }
        if meets_offset_64(t, prefix) {
            let (a, b) = choose|a: int, b: int|
                0 <= a < b < prefix.len() && t.offset_32bit == Some(#[trigger] prefix[a])
                    && t.offset_64bit == Some(#[trigger] prefix[b]);
            assert(t.offset_32bit == Some(offsets[a]));
        }
    }
}

} // verus!
