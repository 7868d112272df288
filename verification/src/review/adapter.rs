//! Choosing the terminal renderer of the review surface.
use vstd::prelude::*;

verus! {

/// Terminal-specific renderer of the review surface.
#[derive(Debug, Clone, Copy, PartialEq, Eq)]
pub enum PresentationAdapter {
    Enhanced,
    Portable,
}

/// Adapter selection result. The portable inline adapter is mandatory; a
/// selected enhanced adapter that fails to open falls back to it without
/// losing the candidate or focus state. A portable failure is `Unavailable`.
#[derive(Debug, PartialEq, Eq)]
pub struct PresentationSelection {
    attempts: Vec<PresentationAdapter>,
    active: Option<PresentationAdapter>,
    unavailable: bool,
}

/// The adapters tried, in order, for the given open results.
pub open spec fn attempts_for(enhanced_open: Option<bool>) -> Seq<PresentationAdapter> {
    match enhanced_open {
        Some(true) => seq![PresentationAdapter::Enhanced],
        Some(false) => seq![PresentationAdapter::Enhanced, PresentationAdapter::Portable],
        None => seq![PresentationAdapter::Portable],
    }
}

/// The adapter in use for the given open results.
pub open spec fn active_for(enhanced_open: Option<bool>, portable_open: bool) -> Option<PresentationAdapter> {
    if enhanced_open == Some(true) {
        Some(PresentationAdapter::Enhanced)
    } else if portable_open {
        Some(PresentationAdapter::Portable)
    } else {
        None
    }
}

impl PresentationSelection {
    pub closed spec fn attempts_view(&self) -> Seq<PresentationAdapter> {
        self.attempts@
    }

    pub closed spec fn active_view(&self) -> Option<PresentationAdapter> {
        self.active
    }

    pub closed spec fn unavailable_view(&self) -> bool {
        self.unavailable
    }

    /// `enhanced_open` is `Some(true)` when the enhanced adapter opened,
    /// `Some(false)` when it was selected but failed, and `None` when no
    /// enhanced adapter was selected.
    pub fn open(enhanced_open: Option<bool>, portable_open: bool) -> (s: Self)
        ensures
            s.attempts_view() == attempts_for(enhanced_open),
            s.active_view() == active_for(enhanced_open, portable_open),
            s.unavailable_view() == (active_for(enhanced_open, portable_open) is None),
    {
        let mut attempts: Vec<PresentationAdapter> = Vec::new();
        if enhanced_open == Some(true) {
            attempts.push(PresentationAdapter::Enhanced);
            assert(attempts@ =~= attempts_for(enhanced_open));
            return PresentationSelection {
                attempts,
                active: Some(PresentationAdapter::Enhanced),
                unavailable: false,
            };
        }
        if enhanced_open == Some(false) {
            attempts.push(PresentationAdapter::Enhanced);
        }
        attempts.push(PresentationAdapter::Portable);
        assert(attempts@ =~= attempts_for(enhanced_open));
        if portable_open {
            PresentationSelection {
                attempts,
                active: Some(PresentationAdapter::Portable),
                unavailable: false,
            }
        } else {
            PresentationSelection { attempts, active: None, unavailable: true }
        }
    }

    pub fn attempts(&self) -> (r: &[PresentationAdapter])
        ensures
            r@ == self.attempts_view(),
    {
        self.attempts.as_slice()
    }

    pub fn active(&self) -> (r: Option<PresentationAdapter>)
        ensures
            r == self.active_view(),
    {
        self.active
    }

    pub fn is_unavailable(&self) -> (b: bool)
        ensures
            b == self.unavailable_view(),
    {
        self.unavailable
    }
}

/// The portable adapter is tried whenever the enhanced one did not open, and
/// the surface is unavailable exactly when no adapter opened.
pub proof fn portable_is_the_fallback(enhanced_open: Option<bool>, portable_open: bool)
    ensures
        enhanced_open != Some(true) ==> attempts_for(enhanced_open).last()
            == PresentationAdapter::Portable,
        (active_for(enhanced_open, portable_open) is None) <==> (enhanced_open != Some(true)
            && !portable_open),
{
}

} // verus!
