use vstd::prelude::*;

verus! {

/// The pointer state of something the player can click: whether the pointer
/// is over it (and was in the frame before), whether the button is held on
/// it (and was in the frame before), and whether a click was completed on it
/// in this frame. Its shape is a real-number rectangle and lives with the
/// renderer.
#[derive(Clone, Copy, Debug, PartialEq, Eq, Structural)]
pub struct Clickable {
    pub disabled: bool,
    pub hovered: bool,
    pub last_hovered: bool,
    pub clicked: bool,
    pub last_clicked: bool,
    pub confirmed: bool,
}

/// The pointer state one frame later: the pointer is now over it or not
/// (`hovered_now`); pressing the button over it holds it; letting go while
/// held releases it, and completes a click when the pointer is still over it.
pub open spec fn clickable_after(c: Clickable, hovered_now: bool, pressed: bool, released: bool) -> Clickable {
    let clicked = c.clicked || (hovered_now && pressed);
    Clickable {
        disabled: c.disabled,
        hovered: hovered_now,
        last_hovered: c.hovered,
        clicked: clicked && !released,
        last_clicked: c.clicked,
        confirmed: clicked && released && hovered_now,
    }
}

impl Clickable {
    /// Nothing hovered, held or clicked.
    pub fn new() -> (r: Clickable)
        ensures
            r == (Clickable {
                disabled: false,
                hovered: false,
                last_hovered: false,
                clicked: false,
                last_clicked: false,
                confirmed: false,
            }),
    {
        Clickable {
            disabled: false,
            hovered: false,
            last_hovered: false,
            clicked: false,
            last_clicked: false,
            confirmed: false,
        }
    }

    /// The pointer came over it in this frame.
    pub fn just_hovered(&self) -> (r: bool)
        ensures
            r == (self.hovered && !self.last_hovered),
    {
        self.hovered && !self.last_hovered
    }

    /// The button was pressed on it in this frame.
    pub fn just_clicked(&self) -> (r: bool)
        ensures
            r == (self.clicked && !self.last_clicked),
    {
        self.clicked && !self.last_clicked
    }

    /// The button was let go in this frame.
    pub fn just_released(&self) -> (r: bool)
        ensures
            r == (!self.clicked && self.last_clicked),
    {
        !self.clicked && self.last_clicked
    }

    /// Moves on one frame (see `clickable_after`).
    pub fn update(&mut self, hovered_now: bool, pressed: bool, released: bool)
        ensures
            *final(self) == clickable_after(*old(self), hovered_now, pressed, released),
    {
        self.last_hovered = self.hovered;
        self.last_clicked = self.clicked;
        self.confirmed = false;
        self.hovered = hovered_now;
        if self.hovered && pressed {
            self.clicked = true;
        }
        if self.clicked && released {
            self.clicked = false;
            if self.hovered {
                self.confirmed = true;
            }
        }
    }
}

impl Default for Clickable {
    fn default() -> (r: Clickable)
        ensures
            r == Clickable::new_spec(),
    {
        Clickable::new()
    }
}

impl Clickable {
    /// Nothing hovered, held or clicked.
    pub open spec fn new_spec() -> Clickable {
        Clickable {
            disabled: false,
            hovered: false,
            last_hovered: false,
            clicked: false,
            last_clicked: false,
            confirmed: false,
        }
    }
}

/// A click is only ever completed in a frame where the button is let go
/// while the pointer is over the thing, and the thing then counts as
/// released.
pub proof fn law_confirm_needs_release(c: Clickable, hovered_now: bool, pressed: bool, released: bool)
    ensures
        clickable_after(c, hovered_now, pressed, released).confirmed ==> released && hovered_now
            && !clickable_after(c, hovered_now, pressed, released).clicked,
{
}

} // verus!
