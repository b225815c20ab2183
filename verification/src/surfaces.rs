//! What a surface of the terminal is made of.
use vstd::prelude::*;
use vstd::string::*;
use crate::number;
use crate::number::decimal;
use crate::text::cat3;

verus! {

/// The surfaces that are open at once.
pub const MAXIMUM_SURFACES: usize = 2;

/// A part of a surface.
#[derive(Clone, Copy, Debug, PartialEq, Eq, Structural)]
pub enum SurfacePart {
    Renderer,
    Controller,
    UiTarget,
    FilesTarget,
}

impl SurfacePart {
    /// The plugin that a part is.
    pub fn plugin(&self) -> (r: &'static str)
        ensures
            r@ == (match self {
                SurfacePart::Renderer => "rsi.terminal.renderer"@,
                SurfacePart::Controller => "rsi.client.session-controller"@,
                SurfacePart::UiTarget => "rsi.session.ui-target"@,
                SurfacePart::FilesTarget => "rsi.session.files.ui-target"@,
            }),
    {
        match self {
            SurfacePart::Renderer => "rsi.terminal.renderer",
            SurfacePart::Controller => "rsi.client.session-controller",
            SurfacePart::UiTarget => "rsi.session.ui-target",
            SurfacePart::FilesTarget => "rsi.session.files.ui-target",
        }
    }

    /// What a part is called in its surface.
    pub fn name(&self) -> (r: &'static str)
        ensures
            r@ == (match self {
                SurfacePart::Renderer => "renderer"@,
                SurfacePart::Controller => "controller"@,
                SurfacePart::UiTarget => "ui-target"@,
                SurfacePart::FilesTarget => "files-ui-target"@,
            }),
    {
        match self {
            SurfacePart::Renderer => "renderer",
            SurfacePart::Controller => "controller",
            SurfacePart::UiTarget => "ui-target",
            SurfacePart::FilesTarget => "files-ui-target",
        }
    }
}

/// What the program around the terminal offers.
#[derive(Clone, Copy, Debug, PartialEq, Eq, Structural)]
pub struct Offered {
    pub ui: bool,
    pub files: bool,
}

/// What of the offers is used: files only where there is something to show them.
pub fn used(ui: bool, files: bool) -> (r: Offered)
    ensures
        r == (Offered { ui, files: ui && files }),
{
    Offered { ui, files: ui && files }
}

/// The parts of a surface, in the order in which they start.
pub open spec fn parts_of(o: Offered) -> Seq<SurfacePart> {
    let base = seq![SurfacePart::Renderer, SurfacePart::Controller];
    let shown = if o.ui {
        base.push(SurfacePart::UiTarget)
    } else {
        base
    };
    if o.files {
        shown.push(SurfacePart::FilesTarget)
    } else {
        shown
    }
}

pub fn surface_parts(o: Offered) -> (r: Vec<SurfacePart>)
    ensures
        r@ == parts_of(o),
{
    let mut r: Vec<SurfacePart> = Vec::new();
    r.push(SurfacePart::Renderer);
    r.push(SurfacePart::Controller);
    proof {
        assert(r@ =~= seq![SurfacePart::Renderer, SurfacePart::Controller]);
    }
    if o.ui {
        r.push(SurfacePart::UiTarget);
    }
    if o.files {
        r.push(SurfacePart::FilesTarget);
    }
    r
}

/// What is told when the owner of the surfaces could not be started.
pub fn activation_failed(failures: u64) -> (r: String)
    ensures
        r@ == "terminal Shell activation failed; "@ + number::digits(failures as nat)
            + " cleanup failures"@,
{
    cat3("terminal Shell activation failed; ", decimal(failures).as_str(), " cleanup failures")
}

/// What is told when the owner of the surfaces could not be closed cleanly.
pub fn cleanup_failed(failures: u64) -> (r: String)
    ensures
        r@ == "terminal Shell cleanup reported "@ + number::digits(failures as nat) + " failures"@,
{
    cat3("terminal Shell cleanup reported ", decimal(failures).as_str(), " failures")
}

/// What is missing from a surface that was opened, if anything is.
pub fn missing_part(controller: bool, sink: bool) -> (r: Option<&'static str>)
    ensures
        !controller ==> (r matches Some(s) && s@ == "Session controller is unavailable"@),
        controller && !sink ==> (r matches Some(s) && s@
            == "terminal observation sink is unavailable"@),
        controller && sink ==> r is None,
{
    if !controller {
        Some("Session controller is unavailable")
    } else if !sink {
        Some("terminal observation sink is unavailable")
    } else {
        None
    }
}

/// Every surface draws and controls; files are only shown where something shows them.
pub proof fn law_parts(ui: bool, files: bool)
    ensures
        parts_of(Offered { ui, files: ui && files })[0] == SurfacePart::Renderer,
        parts_of(Offered { ui, files: ui && files })[1] == SurfacePart::Controller,
        parts_of(Offered { ui, files: ui && files }).contains(SurfacePart::FilesTarget) ==> parts_of(
            Offered { ui, files: ui && files },
        ).contains(SurfacePart::UiTarget),
{
    let v = parts_of(Offered { ui, files: ui && files });
    if ui {
        assert(v[2] == SurfacePart::UiTarget);
    }
}

/// The surfaces of a terminal.
#[derive(Clone, Copy, Debug, PartialEq, Eq, Structural)]
pub struct TerminalSurfaces {
    pub offered: Offered,
}

/// How a surface is opened: its parts, in the order in which they start.
#[derive(Debug)]
pub struct Observer {
    pub parts: Vec<SurfacePart>,
}

impl TerminalSurfaces {
    /// Takes in how the owner of the surfaces was started: whether it runs, with how many failures it
    /// was taken down where it does not, and whether it is published.
    pub fn start(offered: Offered, active: bool, failures: u64, published: bool) -> (r: Result<
        TerminalSurfaces,
        String,
    >)
        ensures
            if !active {
                r matches Err(e) && e@ == "terminal Shell activation failed; "@ + number::digits(
                    failures as nat,
                ) + " cleanup failures"@
            } else if !published {
                r matches Err(e) && e@ == "terminal Shell is unavailable"@
            } else {
                r == Ok::<TerminalSurfaces, String>(TerminalSurfaces { offered })
            },
    {
        if !active {
            Err(activation_failed(failures))
        } else if !published {
            Err("terminal Shell is unavailable".to_owned())
        } else {
            Ok(TerminalSurfaces { offered })
        }
    }

    /// Takes in what a surface published once its parts were started.
    pub fn open(&self, controller: bool, sink: bool) -> (r: Result<Observer, &'static str>)
        ensures
            !controller ==> (r matches Err(e) && e@ == "Session controller is unavailable"@),
            controller && !sink ==> (r matches Err(e) && e@
                == "terminal observation sink is unavailable"@),
            controller && sink ==> (r matches Ok(o) && o.parts@ == parts_of(self.offered)),
    {
        match missing_part(controller, sink) {
            Some(problem) => Err(problem),
            None => Ok(Observer { parts: surface_parts(self.offered) }),
        }
    }

    /// Takes in whether the owner of the surfaces was taken down cleanly, and with how many failures.
    pub fn close(self, clean: bool, failures: u64) -> (r: Result<(), String>)
        ensures
            clean ==> r is Ok,
            !clean ==> (r matches Err(e) && e@ == "terminal Shell cleanup reported "@
                + number::digits(failures as nat) + " failures"@),
    {
        if clean {
            Ok(())
        } else {
            Err(cleanup_failed(failures))
        }
    }
}

impl Observer {
    /// Takes in whether a surface was closed cleanly, and with how many failures.
    pub fn stop(self, clean: bool, failures: u64) -> (r: Result<(), String>)
        ensures
            clean ==> r is Ok,
            !clean ==> (r matches Err(e) && e@ == "terminal surface cleanup reported "@
                + number::digits(failures as nat) + " failures"@),
    {
        if clean {
            Ok(())
        } else {
            Err(
                cat3(
                    "terminal surface cleanup reported ",
                    decimal(failures).as_str(),
                    " failures",
                ),
            )
        }
    }
}

/// A surface has a target for what extensions show where that is offered, and one for files where
/// those are, and nothing else beside its renderer and its controller.
pub proof fn law_offered_parts(o: Offered)
    ensures
        parts_of(o).contains(SurfacePart::UiTarget) <==> o.ui,
        parts_of(o).contains(SurfacePart::FilesTarget) <==> o.files,
        parts_of(o).len() == 2 + (if o.ui {
            1int
        } else {
            0int
        }) + (if o.files {
            1int
        } else {
            0int
        }),
{
    let v = parts_of(o);
    if o.ui {
        assert(v[2] == SurfacePart::UiTarget);
    }
    if o.files {
        assert(v[v.len() - 1] == SurfacePart::FilesTarget);
    }
}

} // verus!
