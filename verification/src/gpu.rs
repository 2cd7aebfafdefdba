//! Choice of the graphics device and of the size of its swapchain.

use vstd::prelude::*;

verus! {

/// Images that a swapchain holds at least.
pub const MIN_SWAPCHAIN_IMAGES: u32 = 3;

/// What kind of device a graphics device is.
#[derive(Clone, Copy, Debug, PartialEq, Eq, Structural)]
pub enum DeviceKind {
    Discrete,
    Integrated,
    Virtual,
    Cpu,
    Other,
    Unknown,
}

/// What the queues of one family can do.
#[derive(Clone, Copy, Debug)]
pub struct QueueFamily {
    /// They can draw.
    pub graphics: bool,
    /// They can present images in the game's window.
    pub presents: bool,
}

/// A graphics device, as far as the choice depends on it.
#[derive(Debug)]
pub struct Candidate {
    /// The device has every extension that the game needs.
    pub supported: bool,
    pub families: Vec<QueueFamily>,
    pub kind: DeviceKind,
}

/// How far down the list of preferences a kind of device stands.
pub open spec fn rank_of(kind: DeviceKind) -> int {
    match kind {
        DeviceKind::Discrete => 0,
        DeviceKind::Integrated => 1,
        DeviceKind::Virtual => 2,
        DeviceKind::Cpu => 3,
        DeviceKind::Other => 4,
        DeviceKind::Unknown => 5,
    }
}

/// Whether the queues of a family can both draw and present.
pub open spec fn is_usable(family: QueueFamily) -> bool {
    family.graphics && family.presents
}

/// Whether family `f` is the first of `families` that can both draw and present.
pub open spec fn is_first_usable(families: Seq<QueueFamily>, f: int) -> bool {
    &&& 0 <= f < families.len()
    &&& is_usable(families[f])
    &&& forall|g: int| 0 <= g < f ==> !is_usable(#[trigger] families[g])
}

/// Whether no family can both draw and present.
pub open spec fn none_usable(families: Seq<QueueFamily>) -> bool {
    forall|f: int| 0 <= f < families.len() ==> !is_usable(#[trigger] families[f])
}

/// Whether the game can run on a device.
pub open spec fn is_suitable(c: Candidate) -> bool {
    c.supported && exists|f: int| 0 <= f < c.families@.len() && is_usable(#[trigger] c.families@[f])
}

/// Whether device `d` is the one to take: suitable, of the best kind that a suitable device is of,
/// and the first of that kind.
pub open spec fn is_best(candidates: Seq<Candidate>, d: int) -> bool {
    &&& 0 <= d < candidates.len()
    &&& is_suitable(candidates[d])
    &&& forall|e: int|
        0 <= e < candidates.len() && is_suitable(#[trigger] candidates[e]) ==> rank_of(
            candidates[d].kind,
        ) <= rank_of(candidates[e].kind)
    &&& forall|e: int|
        0 <= e < d && is_suitable(#[trigger] candidates[e]) ==> rank_of(candidates[d].kind)
            < rank_of(candidates[e].kind)
}

fn rank(kind: DeviceKind) -> (r: u32)
    ensures
        r == rank_of(kind),
{
    match kind {
        DeviceKind::Discrete => 0,
        DeviceKind::Integrated => 1,
        DeviceKind::Virtual => 2,
        DeviceKind::Cpu => 3,
        DeviceKind::Other => 4,
        DeviceKind::Unknown => 5,
    }
}

/// The first queue family of a device that can both draw and present.
pub fn usable_family(families: &Vec<QueueFamily>) -> (r: Option<usize>)
    ensures
        r matches Some(f) ==> is_first_usable(families@, f as int),
        r is None <==> forall|f: int|
            #![trigger families@[f]]
            0 <= f < families@.len() ==> !is_usable(families@[f]),
        r is None <==> none_usable(families@),
{
    let mut f: usize = 0;
    while f < families.len()
        invariant
            f <= families@.len(),
            forall|g: int| 0 <= g < f ==> !is_usable(#[trigger] families@[g]),
        decreases families@.len() - f,
    {
        if families[f].graphics && families[f].presents {
            assert(is_usable(families@[f as int]));
            return Some(f);
        }
        f += 1;
    }
    None
}

/// Chooses the device to run on, and its queue family. There is no choice only if no device is
/// suitable.
pub fn select_device(candidates: &[Candidate]) -> (r: Option<(usize, usize)>)
    ensures
        r matches Some((d, f)) ==> is_best(candidates@, d as int) && is_first_usable(
            candidates@[d as int].families@,
            f as int,
        ),
        r is None <==> forall|d: int|
            #![trigger candidates@[d]]
            0 <= d < candidates@.len() ==> !is_suitable(candidates@[d]),
{
    let mut best: Option<(usize, usize)> = None;
    let mut d: usize = 0;
    while d < candidates.len()
        invariant
            d <= candidates@.len(),
            best is None ==> forall|e: int|
                0 <= e < d ==> !is_suitable(#[trigger] candidates@[e]),
            best matches Some((b, f)) ==> {
                &&& b < d
                &&& is_suitable(candidates@[b as int])
                &&& is_first_usable(candidates@[b as int].families@, f as int)
                &&& forall|e: int|
                    0 <= e < d && is_suitable(#[trigger] candidates@[e]) ==> rank_of(
                        candidates@[b as int].kind,
                    ) <= rank_of(candidates@[e].kind)
                &&& forall|e: int|
                    0 <= e < b && is_suitable(#[trigger] candidates@[e]) ==> rank_of(
                        candidates@[b as int].kind,
                    ) < rank_of(candidates@[e].kind)
            },
        decreases candidates@.len() - d,
    {
        if candidates[d].supported {
            if let Some(f) = usable_family(&candidates[d].families) {
                assert(is_suitable(candidates@[d as int]));
                let better: bool = match best {
                    Some((b, _)) => rank(candidates[d].kind) < rank(candidates[b].kind),
                    None => true,
                };
                if better {
                    best = Some((d, f));
                }
            }
        }
        d += 1;
    }
    best
}

/// Number of images to ask for when the window needs at least `min_image_count`.
pub fn swapchain_images(min_image_count: u32) -> (r: u32)
    ensures
        r >= min_image_count,
        r >= MIN_SWAPCHAIN_IMAGES,
        r == min_image_count || r == MIN_SWAPCHAIN_IMAGES,
{
    if min_image_count < MIN_SWAPCHAIN_IMAGES {
        MIN_SWAPCHAIN_IMAGES
    } else {
        min_image_count
    }
}

/// The choice leaves nothing open: at most one device is the one to take.
pub proof fn law_choice_is_unique(candidates: Seq<Candidate>, d: int, e: int)
    requires
        is_best(candidates, d),
        is_best(candidates, e),
    ensures
        d == e,
{
    if d < e {
        assert(is_suitable(candidates[d]));
    } else if e < d {
        assert(is_suitable(candidates[e]));
    }
}

/// A discrete device that the game can run on is preferred to every device of another kind.
pub proof fn law_discrete_devices_come_first(candidates: Seq<Candidate>, d: int, e: int)
    requires
        is_best(candidates, d),
        0 <= e < candidates.len(),
        is_suitable(candidates[e]),
        candidates[e].kind == DeviceKind::Discrete,
    ensures
        candidates[d].kind == DeviceKind::Discrete,
{
    assert(rank_of(candidates[d].kind) <= rank_of(candidates[e].kind));
}

/// The family found can draw and present and no family before it can; none is found only where none
/// can.
pub proof fn law_family_found_is_the_first(families: &Vec<QueueFamily>, r: Option<usize>, g: int)
    requires
        call_ensures(usable_family, (families,), r),
    ensures
        r matches Some(f) ==> f < families@.len() && families@[f as int].graphics
            && families@[f as int].presents,
        0 <= g < families@.len() && families@[g].graphics && families@[g].presents ==> (r matches
            Some(f) && f <= g),
{
    if 0 <= g < families@.len() {
        assert(is_usable(families@[g]) <==> families@[g].graphics && families@[g].presents);
    }
    if let Some(f) = r {
        assert(is_first_usable(families@, f as int));
    }
}

/// A device that the game can run on, by having what it needs and a family that draws and presents,
/// is passed over only for one of a kind that is preferred or for an earlier one of its own kind.
/// Kinds are preferred in this order: discrete, integrated, virtual, processor, other, unknown.
pub proof fn law_device_chosen_is_preferred(
    candidates: &[Candidate],
    r: Option<(usize, usize)>,
    e: int,
    g: int,
)
    requires
        call_ensures(select_device, (candidates,), r),
        0 <= e < candidates@.len(),
        0 <= g < candidates@[e].families@.len(),
        candidates@[e].supported,
        candidates@[e].families@[g].graphics,
        candidates@[e].families@[g].presents,
    ensures
        r matches Some((d, f)) && d < candidates@.len() && ({
            let (chosen, passed) = (candidates@[d as int].kind, candidates@[e].kind);
            &&& chosen == passed ==> d <= e
            &&& passed == DeviceKind::Discrete ==> chosen == DeviceKind::Discrete
            &&& passed == DeviceKind::Integrated ==> chosen == DeviceKind::Discrete || chosen
                == DeviceKind::Integrated
            &&& passed == DeviceKind::Virtual ==> chosen == DeviceKind::Discrete || chosen
                == DeviceKind::Integrated || chosen == DeviceKind::Virtual
            &&& passed == DeviceKind::Cpu ==> chosen != DeviceKind::Other && chosen
                != DeviceKind::Unknown
            &&& passed == DeviceKind::Other ==> chosen != DeviceKind::Unknown
        }),
{
    assert(is_usable(candidates@[e].families@[g]));
    assert(is_suitable(candidates@[e]));
    if let Some((d, f)) = r {
        assert(is_best(candidates@, d as int));
    }
}

/// Whatever is chosen can run the game: the device has what it needs, and the family is the first
/// of the device that draws and presents.
pub proof fn law_device_chosen_is_suitable(candidates: &[Candidate], d: usize, f: usize, g: int)
    requires
        call_ensures(select_device, (candidates,), Some((d, f))),
    ensures
        d < candidates@.len(),
        f < candidates@[d as int].families@.len(),
        candidates@[d as int].supported,
        candidates@[d as int].families@[f as int].graphics,
        candidates@[d as int].families@[f as int].presents,
        0 <= g < f ==> !(candidates@[d as int].families@[g].graphics
            && candidates@[d as int].families@[g].presents),
{
    assert(is_best(candidates@, d as int));
    if 0 <= g < f {
        assert(!is_usable(candidates@[d as int].families@[g]));
    }
}

/// Never fewer than three images are asked for and never fewer than the window needs, and no more
/// than that.
pub proof fn law_swapchain_is_large_enough(min_image_count: u32, r: u32)
    requires
        call_ensures(swapchain_images, (min_image_count,), r),
    ensures
        min_image_count >= 3 ==> r == min_image_count,
        min_image_count < 3 ==> r == 3,
{
}

} // verus!
