use vstd::prelude::*;

verus! {

/// What moving on one scene in a cutscene does: whether the proceed sound
/// plays, and the animation started, as its track and name.
#[derive(Clone, Copy, Debug)]
pub struct SceneStep {
    pub play_sound: bool,
    pub animation: Option<(usize, &'static str)>,
}

/// The animation the intro starts when leaving scene `scene`.
pub open spec fn intro_animation(scene: int) -> Option<(usize, Seq<char>)> {
    if scene == 0 {
        Some((1, "scene2"@))
    } else if scene == 1 {
        Some((2, "scene3"@))
    } else if scene == 2 {
        Some((3, "scene4"@))
    } else if scene == 3 {
        Some((4, "scene5"@))
    } else if scene == 4 {
        Some((4, "scene6"@))
    } else if scene == 5 {
        Some((5, "out"@))
    } else {
        None
    }
}

/// The animation the outro starts when leaving scene `scene`.
pub open spec fn outro_animation(scene: int) -> Option<(usize, Seq<char>)> {
    if scene == 0 {
        Some((2, "scene2"@))
    } else if scene == 1 {
        Some((3, "scene3"@))
    } else if scene == 2 {
        Some((4, "out"@))
    } else {
        None
    }
}

/// An animation as a mathematical value.
pub open spec fn animation_view(a: Option<(usize, &'static str)>) -> Option<(usize, Seq<char>)> {
    match a {
        Some((t, n)) => Some((t, n@)),
        None => None,
    }
}

/// A cutscene told in scenes, and the scene it is at.
#[derive(Clone, Copy, Debug, PartialEq, Eq, Structural)]
pub struct Cutscene {
    pub outro: bool,
    pub scene: usize,
}

impl Cutscene {
    /// The intro, at its first scene.
    pub fn intro() -> (r: Cutscene)
        ensures
            r == (Cutscene { outro: false, scene: 0 }),
    {
        Cutscene { outro: false, scene: 0 }
    }

    /// The outro, at its first scene.
    pub fn outro() -> (r: Cutscene)
        ensures
            r == (Cutscene { outro: true, scene: 0 }),
    {
        Cutscene { outro: true, scene: 0 }
    }

    /// Moves on one scene: the next scene's animation starts (none past the
    /// last), with the proceed sound unless the player is skipping fast.
    pub fn next(&mut self, fast_skip: bool) -> (r: SceneStep)
        requires
            old(self).scene < usize::MAX,
        ensures
            final(self).scene == old(self).scene + 1,
            final(self).outro == old(self).outro,
            animation_view(r.animation) == (if old(self).outro {
                outro_animation(old(self).scene as int)
            } else {
                intro_animation(old(self).scene as int)
            }),
            r.play_sound == (r.animation is Some && !fast_skip),
    {
        let animation: Option<(usize, &'static str)> = if self.outro {
            match self.scene {
                0 => Some((2, "scene2")),
                1 => Some((3, "scene3")),
                2 => Some((4, "out")),
                _ => None,
            }
        } else {
            match self.scene {
                0 => Some((1, "scene2")),
                1 => Some((2, "scene3")),
                2 => Some((3, "scene4")),
                3 => Some((4, "scene5")),
                4 => Some((4, "scene6")),
                5 => Some((5, "out")),
                _ => None,
            }
        };
        self.scene = self.scene + 1;
        SceneStep { play_sound: animation.is_some() && !fast_skip, animation }
    }

    /// Whether a subtitle meant for scene `scene` belongs on screen now.
    pub fn shows_subtitle(&self, scene: usize) -> (r: bool)
        ensures
            r == (scene == self.scene),
    {
        scene == self.scene
    }
}

} // verus!
