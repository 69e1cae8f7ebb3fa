//! The palette container: named color roles, each populated with
//! fully converted linear values. Base and accent carry a primary
//! value and an ordered list of variants; background and foreground
//! are single values. Seeds arrive gamma-encoded and are converted on
//! the way in, so no gamma-encoded residue can ever be stored.

use vstd::prelude::*;

verus! {

use crate::color::ColorValue;
use crate::color::LinearColor;
use crate::color::linear_of;

/// The two multi-valued palette roles.
#[derive(Clone, Copy, Debug, PartialEq, Eq, Structural)]
pub enum Slot {
    Base,
    Accent,
}

/// A linear color that lies in the image of the gamma decoding, as
/// every palette entry must.
pub open spec fn is_converted(lc: LinearColor) -> bool {
    &&& 0 <= lc.r <= 1_000_255
    &&& 0 <= lc.g <= 1_000_255
    &&& 0 <= lc.b <= 1_000_255
}

/// Named color roles, each holding linear values only.
pub struct Palette {
    pub base: (LinearColor, Vec<LinearColor>),
    pub accent: (LinearColor, Vec<LinearColor>),
    pub background: LinearColor,
    pub foreground: LinearColor,
}

impl Palette {
    /// Every stored value, primary or variant, is a converted linear
    /// color.
    pub open spec fn well_formed(&self) -> bool {
        &&& is_converted(self.base.0)
        &&& is_converted(self.accent.0)
        &&& is_converted(self.background)
        &&& is_converted(self.foreground)
        &&& forall|i: int| 0 <= i < self.base.1@.len() ==> is_converted(#[trigger] self.base.1@[i])
        &&& forall|i: int|
            0 <= i < self.accent.1@.len() ==> is_converted(#[trigger] self.accent.1@[i])
    }

    /// A palette seeded from four gamma-encoded colors: each seed is
    /// converted to linear form and stored; the variant lists start
    /// empty.
    pub fn seed(
        base: &ColorValue,
        accent: &ColorValue,
        background: &ColorValue,
        foreground: &ColorValue,
    ) -> (p: Palette)
        ensures
            p.base.0 == linear_of(*base),
            p.accent.0 == linear_of(*accent),
            p.background == linear_of(*background),
            p.foreground == linear_of(*foreground),
            p.base.1@.len() == 0,
            p.accent.1@.len() == 0,
            p.well_formed(),
    {
        let p = Palette {
            base: (base.to_linear(), Vec::new()),
            accent: (accent.to_linear(), Vec::new()),
            background: background.to_linear(),
            foreground: foreground.to_linear(),
        };
        p
    }

    /// A converted variant appended to the named slot; the order of
    /// addition is preserved, and every other role is untouched.
    pub fn add_variant(&mut self, slot: Slot, color: &ColorValue)
        requires
            old(self).well_formed(),
        ensures
            final(self).well_formed(),
            slot == Slot::Base ==> final(self).base.1@ == old(self).base.1@.push(
                linear_of(*color),
            ) && final(self).accent == old(self).accent,
            slot == Slot::Accent ==> final(self).accent.1@ == old(self).accent.1@.push(
                linear_of(*color),
            ) && final(self).base == old(self).base,
            final(self).base.0 == old(self).base.0,
            final(self).accent.0 == old(self).accent.0,
            final(self).background == old(self).background,
            final(self).foreground == old(self).foreground,
    {
        let lc = color.to_linear();
        match slot {
            Slot::Base => {
                self.base.1.push(lc);
            },
            Slot::Accent => {
                self.accent.1.push(lc);
            },
        }
    }
}

} // verus!
