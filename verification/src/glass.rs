//! The decisions behind the native glass backdrop: how opaque the tint is, how round the
//! window corners are, which companion window a minimised host hides, and the error text.
use crate::color::RgbColor;
use vstd::prelude::*;

verus! {

/// What the material does while its window is inactive.
#[derive(Clone, Copy, Debug, PartialEq, Eq, Structural)]
pub enum InactiveBehavior {
    KeepGlass,
    Solid,
}

/// Whether the material is shown.
#[derive(Clone, Copy, Debug, PartialEq, Eq, Structural)]
pub enum GlassStatus {
    Active,
    Unsupported,
}

/// Why the material could not be attached or updated.
#[derive(Clone, Debug)]
pub enum GlassError {
    UnsupportedWindowHandle,
    Platform(String),
}

/// The text of an error.
pub open spec fn glass_error_text(e: GlassError) -> Seq<char> {
    match e {
        GlassError::UnsupportedWindowHandle => "the window is not a Win32 HWND"@,
        GlassError::Platform(m) => m@,
    }
}

impl GlassError {
    /// The text of this error.
    pub fn message(&self) -> (m: String)
        ensures
            m@ == glass_error_text(*self),
    {
        match self {
            GlassError::UnsupportedWindowHandle => String::from_str("the window is not a Win32 HWND"),
            GlassError::Platform(message) => message.clone(),
        }
    }
}

/// A platform error raised at a named stage: the stage, a colon and a space, then the
/// platform's own text.
pub fn platform_error_at(stage: &str, detail: &str) -> (e: GlassError)
    ensures
        e matches GlassError::Platform(m) && m@ == stage@ + ": "@ + detail@,
{
    let mut message = String::from_str(stage);
    message.append(": ");
    message.append(detail);
    GlassError::Platform(message)
}

/// Translucency as the material uses it: at most 100 percent.
pub open spec fn clamped_translucency(translucency: u8) -> u8 {
    if translucency > 100 {
        100
    } else {
        translucency
    }
}

/// The alpha of the tint laid over the blurred desktop: fully opaque for an inactive window
/// that asked to turn solid, otherwise `(100 - translucency) * 255 / 100` with translucency
/// capped at 100, rounded down.
pub open spec fn tint_alpha(translucency: u8, inactive_behavior: InactiveBehavior, active: bool) -> u8 {
    if !active && inactive_behavior == InactiveBehavior::Solid {
        255
    } else {
        ((100 - clamped_translucency(translucency)) * 255 / 100) as u8
    }
}

/// Caps translucency at 100 percent.
pub fn normalized_translucency(translucency: u8) -> (t: u8)
    ensures
        t == clamped_translucency(translucency),
{
    if translucency > 100 {
        100
    } else {
        translucency
    }
}

/// The alpha of the tint laid over the blurred desktop.
pub fn tint_opacity(translucency: u8, inactive_behavior: InactiveBehavior, active: bool) -> (a: u8)
    ensures
        a == tint_alpha(translucency, inactive_behavior, active),
{
    if !active && inactive_behavior == InactiveBehavior::Solid {
        255
    } else {
        let opacity: u16 = 100 - normalized_translucency(translucency) as u16;
        assert(opacity * 255 <= 25500) by (nonlinear_arith)
            requires
                opacity <= 100,
        ;
        ((opacity * 255) / 100) as u8
    }
}

/// The tint laid over the blurred desktop, as alpha, red, green and blue.
pub fn tint_color(tint: RgbColor, translucency: u8, inactive_behavior: InactiveBehavior, active: bool) -> (c: (
    u8,
    u8,
    u8,
    u8,
))
    ensures
        c == (tint_alpha(translucency, inactive_behavior, active), tint.red, tint.green, tint.blue),
{
    (tint_opacity(translucency, inactive_behavior, active), tint.red, tint.green, tint.blue)
}

/// Keeping glass while inactive is the default: then the tint is the same whether the window
/// is active or not, and only an explicit solid choice makes an inactive window opaque.
pub proof fn lemma_inactive_solid_is_opt_in(translucency: u8)
    ensures
        tint_alpha(translucency, InactiveBehavior::KeepGlass, false) == tint_alpha(
            translucency,
            InactiveBehavior::KeepGlass,
            true,
        ),
        tint_alpha(translucency, InactiveBehavior::Solid, true) == tint_alpha(
            translucency,
            InactiveBehavior::KeepGlass,
            true,
        ),
        tint_alpha(translucency, InactiveBehavior::Solid, false) == 255,
{
}

/// The corner radius, in physical pixels, of a window at `dpi` dots per inch: eight
/// device-independent pixels, rounded to the nearest pixel, with the DPI at least 96.
pub open spec fn corner_radius_at(dpi: u32) -> int {
    let d: int = if dpi < 96 {
        96
    } else {
        dpi as int
    };
    (8 * d + 48) / 96
}

/// The corner radius, in physical pixels, of a window at `dpi` dots per inch.
pub fn corner_radius(dpi: u32) -> (r: i32)
    requires
        dpi <= 268_435_449,
    ensures
        r == corner_radius_at(dpi),
{
    let d: i32 = if dpi < 96 {
        96
    } else {
        dpi as i32
    };
    (8 * d + 48) / 96
}

/// A host window and the companion window that draws its backdrop, by handle value.
#[derive(Clone, Copy, Debug, PartialEq, Eq, Structural)]
pub struct MinimizeRegistration {
    pub host: usize,
    pub backdrop: usize,
}

/// The companion windows to hide when their host is minimised.
#[derive(Debug)]
pub struct MinimizeRegistry {
    entries: Vec<MinimizeRegistration>,
}

/// Whether an entry survives removing `registration`.
pub open spec fn survives(registration: MinimizeRegistration) -> spec_fn(MinimizeRegistration) -> bool {
    |e: MinimizeRegistration| e != registration
}

/// The first entry for `host`, if any.
pub open spec fn first_backdrop(entries: Seq<MinimizeRegistration>, host: usize) -> Option<usize>
    decreases entries.len(),
{
    if entries.len() == 0 {
        None
    } else if entries[0].host == host {
        Some(entries[0].backdrop)
    } else {
        first_backdrop(entries.drop_first(), host)
    }
}

impl View for MinimizeRegistry {
    type V = Seq<MinimizeRegistration>;

    closed spec fn view(&self) -> Seq<MinimizeRegistration> {
        self.entries@
    }
}

impl MinimizeRegistry {
    /// A registry with no entries.
    pub fn new() -> (r: MinimizeRegistry)
        ensures
            r@ == Seq::<MinimizeRegistration>::empty(),
    {
        MinimizeRegistry { entries: Vec::new() }
    }

    /// Records a host and its companion window.
    pub fn register(&mut self, registration: MinimizeRegistration)
        ensures
            final(self)@ == old(self)@.push(registration),
    {
        self.entries.push(registration);
    }

    /// Forgets every entry equal to `registration`; the others keep their order.
    pub fn remove(&mut self, registration: MinimizeRegistration)
        ensures
            final(self)@ == old(self)@.filter(survives(registration)),
    {
        let ghost all = self.entries@;
        let mut kept: Vec<MinimizeRegistration> = Vec::new();
        let mut i: usize = 0;
        while i < self.entries.len()
            invariant
                0 <= i <= self.entries@.len(),
                self.entries@ == all,
                kept@ == all.subrange(0, i as int).filter(survives(registration)),
            decreases self.entries.len() - i,
        {
            proof {
                assert(all.subrange(0, i + 1) =~= all.subrange(0, i as int).push(all[i as int]));
                all.subrange(0, i as int).lemma_filter_push(all[i as int], survives(registration));
            }
            let e = self.entries[i];
            if e.host != registration.host || e.backdrop != registration.backdrop {
                kept.push(e);
            }
            i = i + 1;
        }
        proof {
            assert(all.subrange(0, i as int) =~= all);
        }
        self.entries = kept;
    }

    /// The companion window of the first entry for `host`, if any.
    pub fn backdrop_for(&self, host: usize) -> (r: Option<usize>)
        ensures
            r == first_backdrop(self@, host),
    {
        let mut i: usize = 0;
        assert(self.entries@.subrange(0, self.entries@.len() as int) =~= self.entries@);
        while i < self.entries.len()
            invariant
                0 <= i <= self.entries@.len(),
                first_backdrop(self.entries@, host) == first_backdrop(
                    self.entries@.subrange(i as int, self.entries@.len() as int),
                    host,
                ),
            decreases self.entries.len() - i,
        {
            let ghost rest = self.entries@.subrange(i as int, self.entries@.len() as int);
            if self.entries[i].host == host {
                return Some(self.entries[i].backdrop);
            }
            proof {
                assert(rest.drop_first() =~= self.entries@.subrange(
                    i + 1,
                    self.entries@.len() as int,
                ));
            }
            i = i + 1;
        }
        None
    }
}

/// Once an entry is removed, its host finds no companion window through it: the removed
/// registration is gone and every other entry is kept.
pub proof fn lemma_remove_forgets(entries: Seq<MinimizeRegistration>, registration: MinimizeRegistration)
    ensures
        !entries.filter(survives(registration)).contains(registration),
        forall|i: int|
            0 <= i < entries.len() && entries[i] != registration ==> entries.filter(
                survives(registration),
            ).contains(#[trigger] entries[i]),
{
    if entries.filter(survives(registration)).contains(registration) {
        let k = choose|k: int|
            0 <= k < entries.filter(survives(registration)).len() && entries.filter(
                survives(registration),
            )[k] == registration;
        entries.lemma_filter_pred(survives(registration), k);
    }
    assert forall|i: int| 0 <= i < entries.len() && entries[i] != registration implies entries.filter(
        survives(registration),
    ).contains(#[trigger] entries[i]) by {
        entries.lemma_filter_contains(survives(registration), i);
    }
}

} // verus!
