//! When a frame is drawn, and which frames are shown.
use vstd::prelude::*;
use vstd::string::*;
use crate::recovery;
use crate::recovery::{Identity, Recovery};

verus! {

/// A frame that a renderer is asked for.
#[derive(Clone, Copy, Debug, PartialEq, Eq, Structural)]
pub struct Asked {
    pub identity: Identity,
    pub width: u16,
    pub height: u16,
}

/// What the frames of a terminal are about to be.
#[derive(Clone, Copy, Debug, PartialEq, Eq, Structural)]
pub struct Frames {
    /// The renderer, or the screen, that frames are drawn for. It only grows.
    pub presentation: u64,
    /// The number of the last frame that was asked for.
    pub revision: u64,
    /// Something has changed since then.
    pub dirty: bool,
    /// The frame that is being drawn.
    pub rendering: Option<Asked>,
    pub recovery: Recovery,
    pub width: u16,
    pub height: u16,
    /// The screens that are in front of the conversation.
    pub external: bool,
    pub profiles: bool,
}

/// What becomes of a frame that was drawn.
#[derive(Debug)]
pub enum Rendered {
    /// It was drawn for something else, and is dropped.
    Stale,
    Show,
    /// The reason is told in its place.
    Failed(String),
}

impl Frames {
    /// The frames after one that is shown already.
    pub fn new(shown: Option<Identity>, width: u16, height: u16, external: bool, profiles: bool) -> (r:
        Frames)
        requires
            shown matches Some(identity) ==> identity.presentation < u64::MAX,
        ensures
            r == (Frames {
                presentation: match shown {
                    Some(identity) => (identity.presentation + 1) as u64,
                    None => 1,
                },
                revision: match shown {
                    Some(identity) => identity.revision,
                    None => 0,
                },
                dirty: true,
                rendering: None,
                recovery: Recovery { deadline: None },
                width,
                height,
                external,
                profiles,
            }),
    {
        let (presentation, revision) = match shown {
            Some(identity) => (identity.presentation + 1, identity.revision),
            None => (1, 0),
        };
        Frames {
            presentation,
            revision,
            dirty: true,
            rendering: None,
            recovery: Recovery { deadline: None },
            width,
            height,
            external,
            profiles,
        }
    }

    /// Everything that was drawn counts as old.
    pub open spec fn renewed(self) -> Frames {
        Frames {
            rendering: None,
            presentation: (self.presentation + 1) as u64,
            dirty: true,
            ..self
        }
    }

    fn renew(&mut self) -> (r: Result<(), &'static str>)
        ensures
            if old(self).presentation == u64::MAX {
                &&& r matches Err(e)
                &&& e@ == "presentation epoch exhausted"@
                &&& *final(self) == (Frames { rendering: None, ..*old(self) })
            } else {
                r is Ok && *final(self) == old(self).renewed()
            },
    {
        self.rendering = None;
        match self.presentation.checked_add(1) {
            Some(next) => {
                self.presentation = next;
                self.dirty = true;
                Ok(())
            },
            None => Err("presentation epoch exhausted"),
        }
    }

    /// Takes in which screens are in front. Says whether what was shown counts as old.
    pub fn navigated(&mut self, external: bool, profiles: bool) -> (r: Result<bool, &'static str>)
        ensures
            ({
                let v = Frames { external, profiles, ..*old(self) };
                if external == old(self).external && profiles == old(self).profiles {
                    r == Ok::<bool, &'static str>(false) && *final(self) == *old(self)
                } else if old(self).presentation == u64::MAX {
                    &&& r matches Err(e)
                    &&& e@ == "presentation epoch exhausted"@
                    &&& *final(self) == (Frames { rendering: None, ..v })
                } else {
                    r == Ok::<bool, &'static str>(true) && *final(self) == v.renewed()
                }
            }),
    {
        if external == self.external && profiles == self.profiles {
            return Ok(false);
        }
        self.external = external;
        self.profiles = profiles;
        match self.renew() {
            Ok(_) => Ok(true),
            Err(e) => Err(e),
        }
    }

    /// Takes in that another renderer draws.
    pub fn presentation_changed(&mut self) -> (r: Result<(), &'static str>)
        ensures
            if old(self).presentation == u64::MAX {
                &&& r matches Err(e)
                &&& e@ == "presentation epoch exhausted"@
                &&& *final(self) == (Frames { rendering: None, ..*old(self) })
            } else {
                &&& r is Ok
                &&& *final(self) == (Frames {
                    recovery: Recovery { deadline: None },
                    ..old(self).renewed()
                })
            },
    {
        match self.renew() {
            Ok(_) => {
                self.recovery.reset();
                Ok(())
            },
            Err(e) => Err(e),
        }
    }

    /// Whether a frame is the one that is wanted: of this conversation, by this renderer, for this
    /// size.
    pub open spec fn wants(self, asked: Asked, attachment: u64, width: u16, height: u16) -> bool {
        &&& asked.identity.attachment == attachment
        &&& asked.identity.presentation == self.presentation
        &&& asked.width == width
        &&& asked.height == height
    }

    /// Says whether what a frame shows may still be clicked on.
    pub fn is_wanted(&self, asked: &Asked, attachment: u64, width: u16, height: u16) -> (r: bool)
        ensures
            r == self.wants(*asked, attachment, width, height),
    {
        asked.identity.attachment == attachment && asked.identity.presentation == self.presentation
            && asked.width == width && asked.height == height
    }

    /// Says whether a frame that is shown now belongs to what is in front, whatever its size.
    pub fn is_taken(&self, shown: &Identity, attachment: u64) -> (r: bool)
        ensures
            r == (shown.attachment == attachment && shown.presentation == self.presentation),
    {
        shown.attachment == attachment && shown.presentation == self.presentation
    }

    /// The frames once one of them failed.
    pub open spec fn failing(self, now: u64) -> Frames {
        Frames {
            recovery: Recovery { deadline: Some((now + recovery::RETRY_MILLISECONDS) as u64) },
            ..self
        }
    }

    /// Takes in that the frame that was asked for is drawn, with whether its sources are those of
    /// the conversation, or why it could not be.
    pub fn rendered(
        &mut self,
        attachment: u64,
        width: u16,
        height: u16,
        outcome: Result<bool, String>,
        now: u64,
    ) -> (r: Rendered)
        requires
            old(self).rendering is Some,
            now + recovery::RETRY_MILLISECONDS <= u64::MAX,
        ensures
            ({
                let v = Frames { rendering: None, ..*old(self) };
                let failed = Frames { dirty: true, ..v.failing(now) };
                if !v.wants(old(self).rendering->0, attachment, width, height) {
                    r is Stale && *final(self) == (Frames { dirty: true, ..v })
                } else {
                    match outcome {
                        Ok(true) => r is Show && *final(self) == (Frames {
                            recovery: Recovery { deadline: None },
                            ..v
                        }),
                        Ok(false) => {
                            &&& r matches Rendered::Failed(s)
                            &&& s@ == "Renderer returned a stale source map"@
                            &&& *final(self) == failed
                        },
                        Err(problem) => {
                            &&& r matches Rendered::Failed(s)
                            &&& s@ == problem@
                            &&& *final(self) == failed
                        },
                    }
                }
            }),
    {
        let current: bool = match &self.rendering {
            Some(asked) => self.is_wanted(asked, attachment, width, height),
            None => false,
        };
        self.rendering = None;
        if !current {
            self.dirty = true;
            return Rendered::Stale;
        }
        let problem: String = match outcome {
            Ok(true) => {
                self.recovery.reset();
                return Rendered::Show;
            },
            Ok(false) => "Renderer returned a stale source map".to_owned(),
            Err(problem) => problem,
        };
        self.dirty = true;
        self.recovery.failed(now);
        Rendered::Failed(problem)
    }

    /// The frames once time has passed: something may have moved, and the terminal may have another
    /// size.
    pub open spec fn passed(self, moved: bool, width: u16, height: u16) -> Frames {
        Frames {
            dirty: self.dirty || moved || width != self.width || height != self.height,
            width,
            height,
            ..self
        }
    }

    /// Whether a frame is asked for: something has changed, nothing is being drawn, and the last
    /// failure is long enough ago.
    pub open spec fn due(self, now: u64) -> bool {
        self.dirty && self.recovery.open_at(now) && self.rendering is None
    }

    /// Takes in that time has passed. Gives the next frame to draw, if one is due.
    pub fn tick(&mut self, attachment: u64, moved: bool, width: u16, height: u16, now: u64) -> (r:
        Result<Option<Asked>, &'static str>)
        ensures
            ({
                let v = old(self).passed(moved, width, height);
                if !v.due(now) {
                    r == Ok::<Option<Asked>, &'static str>(None) && *final(self) == v
                } else if v.revision == u64::MAX {
                    &&& r matches Err(e)
                    &&& e@ == "Terminal frame revision exhausted"@
                    &&& *final(self) == v
                } else {
                    let revision = (v.revision + 1) as u64;
                    &&& r == Ok::<Option<Asked>, &'static str>(
                        Some(
                            Asked {
                                identity: Identity {
                                    attachment,
                                    presentation: v.presentation,
                                    revision,
                                },
                                width,
                                height,
                            },
                        ),
                    )
                    &&& *final(self) == (Frames { revision, ..v })
                }
            }),
    {
        if moved || width != self.width || height != self.height {
            self.dirty = true;
        }
        self.width = width;
        self.height = height;
        if !self.dirty || !self.recovery.ready(now) || self.rendering.is_some() {
            return Ok(None);
        }
        match self.revision.checked_add(1) {
            None => Err("Terminal frame revision exhausted"),
            Some(revision) => {
                self.revision = revision;
                Ok(
                    Some(
                        Asked {
                            identity: Identity {
                                attachment,
                                presentation: self.presentation,
                                revision,
                            },
                            width,
                            height,
                        },
                    ),
                )
            },
        }
    }

    /// Takes in that a renderer draws a frame.
    pub fn draw(&mut self, asked: Asked)
        ensures
            *final(self) == (Frames { rendering: Some(asked), dirty: false, ..*old(self) }),
    {
        self.rendering = Some(asked);
        self.dirty = false;
    }

    /// Takes in that a frame could not even be described.
    pub fn fail(&mut self, now: u64)
        requires
            now + recovery::RETRY_MILLISECONDS <= u64::MAX,
        ensures
            *final(self) == old(self).failing(now),
    {
        self.recovery.failed(now);
    }

    /// Takes in that something has changed.
    pub fn touch(&mut self)
        ensures
            *final(self) == (Frames { dirty: true, ..*old(self) }),
    {
        self.dirty = true;
    }
}

/// While a frame is being drawn no other one is asked for, whatever happens meanwhile.
pub proof fn law_one_at_a_time(v: Frames, moved: bool, width: u16, height: u16, now: u64)
    requires
        v.rendering is Some,
    ensures
        !v.passed(moved, width, height).due(now),
{
}

/// Once another screen is in front, or another renderer draws, a frame that was asked for before
/// is not wanted any more.
pub proof fn law_older_frames_are_dropped(
    v: Frames,
    asked: Asked,
    attachment: u64,
    width: u16,
    height: u16,
)
    requires
        asked.identity.presentation <= v.presentation,
        v.presentation < u64::MAX,
    ensures
        !v.renewed().wants(asked, attachment, width, height),
        v.renewed().rendering is None,
{
}

/// A frame that failed is not drawn again at once, however often something changes, and is drawn
/// again without any change once the time has passed.
pub proof fn law_failure_is_retried(v: Frames, failed: u64, now: u64)
    requires
        v.rendering is None,
        v.dirty,
        failed + recovery::RETRY_MILLISECONDS <= u64::MAX,
    ensures
        v.failing(failed).due(now) <==> now >= failed + recovery::RETRY_MILLISECONDS,
{
}

/// A frame that failed is drawn again a quarter of a second later, and not before.
pub proof fn law_quarter_second(v: Frames, failed: u64, now: u64)
    requires
        v.rendering is None,
        v.dirty,
        failed + 250 <= u64::MAX,
    ensures
        v.failing(failed).due(now) <==> now >= failed + 250,
{
}

/// A frame is due exactly where something has changed, nothing is being drawn and no failure is too
/// recent.
pub proof fn law_due(v: Frames, now: u64)
    requires
        v.recovery.deadline is None,
    ensures
        v.due(now) <==> v.dirty && v.rendering is None,
{
}

/// Anything that moved, and another size of the terminal, asks for another frame; otherwise nothing
/// changes.
pub proof fn law_passed(v: Frames, moved: bool, width: u16, height: u16)
    ensures
        ({
            let w = v.passed(moved, width, height);
            &&& w.width == width && w.height == height
            &&& moved || width != v.width || height != v.height || v.dirty <==> w.dirty
            &&& w.rendering == v.rendering && w.presentation == v.presentation
        }),
        v.presentation < u64::MAX ==> v.renewed().dirty && v.renewed().presentation
            == v.presentation + 1,
{
}

/// A frame is wanted where the conversation, the renderer and both sizes are still those that it
/// was asked for with.
pub proof fn law_wanted(v: Frames, asked: Asked, attachment: u64, width: u16, height: u16)
    ensures
        v.wants(asked, attachment, width, height) <==> asked.identity.attachment == attachment
            && asked.identity.presentation == v.presentation && asked.width == width && asked.height
            == height,
{
}

} // verus!
