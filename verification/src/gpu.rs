//! The choices that the viewer makes among what a graphics device offers:
//! which device to use, which memory type, how many swapchain images and of
//! what size. Each works on plain numbers that the caller reads from the
//! graphics interface.

use vstd::prelude::*;

verus! {

/// What kind of hardware a graphics device is.
#[derive(Debug, Clone, Copy, PartialEq, Eq, Structural)]
pub enum DeviceKind {
    Discrete,
    Integrated,
    Virtual,
    Other,
}

/// How much a device of the given kind is preferred: the higher the better,
/// and 0 for a kind that is never chosen.
pub open spec fn score_of(kind: DeviceKind) -> u32 {
    match kind {
        DeviceKind::Discrete => 5,
        DeviceKind::Integrated => 2,
        DeviceKind::Virtual => 1,
        DeviceKind::Other => 0,
    }
}

/// Scores a device by its kind.
pub fn device_score(kind: DeviceKind) -> (r: u32)
    ensures
        r == score_of(kind),
{
    match kind {
        DeviceKind::Discrete => 5,
        DeviceKind::Integrated => 2,
        DeviceKind::Virtual => 1,
        DeviceKind::Other => 0,
    }
}

/// Whether the device at index `i` is the one to use: it is suitable, its
/// score is above zero, no suitable device scores higher and none before it
/// scores as high.
pub open spec fn is_best_device(scores: Seq<Option<u32>>, i: int) -> bool {
    &&& 0 <= i < scores.len()
    &&& scores[i] matches Some(best)
    &&& best > 0
    &&& forall|j: int| 0 <= j < scores.len() ==> (#[trigger] scores[j] matches Some(s) ==> s <= best)
    &&& forall|j: int| 0 <= j < i ==> (#[trigger] scores[j] matches Some(s) ==> s < best)
}

/// Picks the device to use. `scores` holds, for each device in the order in
/// which the system lists them, its score if it is suitable and `None` if
/// it is not. The result is `None` when no suitable device scores above
/// zero.
pub fn best_device(scores: &[Option<u32>]) -> (r: Option<usize>)
    ensures
        match r {
            Some(i) => is_best_device(scores@, i as int),
            None => forall|j: int|
                0 <= j < scores@.len() ==> (#[trigger] scores@[j] matches Some(s) ==> s == 0),
        },
{
    let mut best_score: u32 = 0;
    let mut best: Option<usize> = None;
    let mut i: usize = 0;
    while i < scores.len()
        invariant
            i <= scores@.len(),
            forall|j: int| 0 <= j < i ==> (#[trigger] scores@[j] matches Some(s) ==> s <= best_score),
            match best {
                Some(b) => {
                    &&& b < i
                    &&& scores@[b as int] == Some(best_score)
                    &&& best_score > 0
                    &&& forall|j: int|
                        0 <= j < b ==> (#[trigger] scores@[j] matches Some(s) ==> s < best_score)
                },
                None => best_score == 0,
            },
        decreases scores@.len() - i,
    {
        match scores[i] {
            Some(score) => {
                if score > best_score {
                    best_score = score;
                    best = Some(i);
                }
            },
            None => {},
        }
        i += 1;
    }
    best
}

/// Whether the memory type at index `i` can serve: bit `i` of `type_bits`
/// is set and the flags of the type hold all of `wanted`.
pub open spec fn memory_type_serves(type_bits: u32, flags: Seq<u32>, wanted: u32, i: int) -> bool {
    &&& 0 <= i < flags.len()
    &&& i < 32
    &&& type_bits & (1u32 << (i as u32)) != 0
    &&& flags[i] & wanted == wanted
}

/// Finds the first memory type that a resource accepts, by `type_bits`, and
/// that has the properties `wanted`. `flags` holds the property flags of
/// the memory types of the device, of which there are no more than 32.
pub fn memory_type_index(type_bits: u32, flags: &[u32], wanted: u32) -> (r: Option<u32>)
    requires
        flags@.len() <= 32,
    ensures
        match r {
            Some(i) => memory_type_serves(type_bits, flags@, wanted, i as int) && forall|j: int|
                0 <= j < i ==> !memory_type_serves(type_bits, flags@, wanted, j),
            None => forall|j: int|
                0 <= j < flags@.len() ==> !memory_type_serves(type_bits, flags@, wanted, j),
        },
{
    let mut i: u32 = 0;
    while (i as usize) < flags.len()
        invariant
            i <= flags@.len() <= 32,
            forall|j: int| 0 <= j < i ==> !memory_type_serves(type_bits, flags@, wanted, j),
        decreases flags@.len() - i,
    {
        let suitable = (type_bits & (1u32 << i)) != 0;
        if suitable && flags[i as usize] & wanted == wanted {
            return Some(i);
        }
        i += 1;
    }
    None
}

/// The number of images to ask of a swapchain that supports at least `min`
/// and at most `max` images, where a `max` of 0 stands for no limit: one
/// more than the minimum, unless that is over the limit.
pub fn swapchain_image_count(min: u32, max: u32) -> (r: u32)
    requires
        min < u32::MAX,
    ensures
        r == if max != 0 && min + 1 > max {
            max
        } else {
            (min + 1) as u32
        },
{
    let count = min + 1;
    if max != 0 && count > max {
        max
    } else {
        count
    }
}

/// A width and a height in pixels.
#[derive(Debug, Clone, Copy, PartialEq, Eq, Structural)]
pub struct Extent {
    pub width: u32,
    pub height: u32,
}

/// The value `v` brought into the range from `low` to `high`.
pub open spec fn clamped(v: u32, low: u32, high: u32) -> u32 {
    if v < low {
        low
    } else if v > high {
        high
    } else {
        v
    }
}

/// The size of the images of a swapchain. A surface that reports its own
/// size decides it; one that reports a width of `u32::MAX` leaves the
/// choice open, and the size of the window is taken, brought into the range
/// that the surface supports.
pub fn swapchain_extent(current: Extent, window: Extent, min: Extent, max: Extent) -> (r: Extent)
    requires
        current.width == u32::MAX ==> min.width <= max.width && min.height <= max.height,
    ensures
        r == if current.width != u32::MAX {
            current
        } else {
            Extent {
                width: clamped(window.width, min.width, max.width),
                height: clamped(window.height, min.height, max.height),
            }
        },
{
    if current.width != u32::MAX {
        current
    } else {
        let width = if window.width < min.width {
            min.width
        } else if window.width > max.width {
            max.width
        } else {
            window.width
        };
        let height = if window.height < min.height {
            min.height
        } else if window.height > max.height {
            max.height
        } else {
            window.height
        };
        Extent { width, height }
    }
}

} // verus!
