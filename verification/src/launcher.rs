//! The launcher's state and what it does with each event.
//!
//! The state is the color index, built once, and the set of surfaces. Events
//! come from the compositor: a display connects or disconnects, a surface is
//! closed or configured, the pointer does something. Each event changes the
//! state and asks for at most one thing to be done outside: to draw a frame,
//! to release a surface, to launch a command.

use vstd::prelude::*;
use crate::color::Oklab;
use crate::command::{has_placeholder, sanitize_exec, sanitized, CommandError};
use crate::desktop::EntryKind;
use crate::gradient::{fraction, gradient, gradient_at, normalize};
use crate::index::{nearest_of, well_formed, DesktopIndex, IndexedView};
use crate::raster::{renderable, FrameLayout};
use crate::surface::{
    by_surface, closed, configured, connected, disconnected, distinct, first_index,
    lemma_first_index, tracks_surface, OutputSurface, SurfaceSet,
};

verus! {

/// The code of the primary pointer button.
pub const PRIMARY_BUTTON: u32 = 0x110;

/// What the pointer did.
#[derive(Clone, Copy, Debug, PartialEq, Eq)]
pub enum PointerKind {
    /// A button was released.
    Release { button: u32 },
    /// Anything else: it entered, left, moved, pressed or scrolled.
    Other,
}

/// One pointer event: the surface under the pointer, the position on that
/// surface in pixels, and what happened.
#[derive(Clone, Copy, Debug, PartialEq, Eq)]
pub struct PointerEvent {
    pub surface: u32,
    pub x: u32,
    pub y: u32,
    pub kind: PointerKind,
}

/// What a pointer event led to.
#[derive(Clone, Debug, PartialEq, Eq)]
pub enum ClickOutcome {
    /// Not a release of the primary button.
    Ignored,
    /// The surface has no record; it may have been removed a moment ago.
    NoSurface,
    /// The position lies outside the surface's configured size.
    Outside,
    /// The index is empty.
    NoMatch,
    /// The matched application has no exec template.
    NotLaunchable { app: usize },
    /// The matched application's command keeps a placeholder that cannot be
    /// filled; it must not be launched.
    Refused { app: usize, command: String },
    /// The matched application is to be launched with `command`.
    Launch { app: usize, command: String },
}

/// The mathematical value of a [`ClickOutcome`].
pub enum Resolution {
    Ignored,
    NoSurface,
    Outside,
    NoMatch,
    NotLaunchable { app: int },
    Refused { app: int, command: Seq<char> },
    Launch { app: int, command: Seq<char> },
}

impl View for ClickOutcome {
    type V = Resolution;

    open spec fn view(&self) -> Resolution {
        match *self {
            ClickOutcome::Ignored => Resolution::Ignored,
            ClickOutcome::NoSurface => Resolution::NoSurface,
            ClickOutcome::Outside => Resolution::Outside,
            ClickOutcome::NoMatch => Resolution::NoMatch,
            ClickOutcome::NotLaunchable { app } => Resolution::NotLaunchable { app: app as int },
            ClickOutcome::Refused { app, command } => Resolution::Refused {
                app: app as int,
                command: command@,
            },
            ClickOutcome::Launch { app, command } => Resolution::Launch {
                app: app as int,
                command: command@,
            },
        }
    }
}

/// The color under the position `(x, y)` of a surface: the gradient field
/// at the position normalized by the surface's recorded size. Positions
/// outside that size have no color.
pub open spec fn clicked_color(record: OutputSurface, x: u32, y: u32) -> Option<Oklab> {
    if x < record.width && y < record.height {
        Some(
            gradient_at(
                fraction(x as int, record.width as int),
                fraction(y as int, record.height as int),
            ),
        )
    } else {
        None
    }
}

/// What becomes of a click that matched item `app`.
pub open spec fn launch_of(items: Seq<IndexedView>, app: int) -> Resolution {
    let entry = items[app].entry;
    if entry.kind == EntryKind::Application && entry.exec_template is Some {
        let command = sanitized(entry.exec_template->0);
        if has_placeholder(command) {
            Resolution::Refused { app, command }
        } else {
            Resolution::Launch { app, command }
        }
    } else {
        Resolution::NotLaunchable { app }
    }
}

/// What a pointer event leads to, given the surface records and the index.
pub open spec fn resolve(
    records: Seq<OutputSurface>,
    items: Seq<IndexedView>,
    event: PointerEvent,
) -> Resolution {
    if event.kind != (PointerKind::Release { button: PRIMARY_BUTTON }) {
        Resolution::Ignored
    } else if !tracks_surface(records, event.surface) {
        Resolution::NoSurface
    } else {
        let record = records[first_index(records, by_surface(event.surface))];
        match clicked_color(record, event.x, event.y) {
            None => Resolution::Outside,
            Some(color) => if items.len() == 0 {
                Resolution::NoMatch
            } else {
                launch_of(items, nearest_of(items, color))
            },
        }
    }
}

/// The outcomes of a batch of pointer events: one per event, in order, each
/// resolved on its own.
pub open spec fn frame_outcomes(
    records: Seq<OutputSurface>,
    items: Seq<IndexedView>,
    events: Seq<PointerEvent>,
) -> Seq<Resolution> {
    events.map_values(|event: PointerEvent| resolve(records, items, event))
}

/// The values of a sequence of outcomes.
pub open spec fn outcome_views(outcomes: Seq<ClickOutcome>) -> Seq<Resolution> {
    outcomes.map_values(|o: ClickOutcome| o@)
}

/// An event from the compositor.
#[derive(Clone, Copy, Debug, PartialEq, Eq)]
pub enum Event {
    /// A display connected. `surface` is the surface made for it, or `None`
    /// where none could be made.
    OutputConnected { output: u32, surface: Option<u32> },
    /// A display disconnected.
    OutputDisconnected { output: u32 },
    /// The compositor closed a surface.
    SurfaceClosed { surface: u32 },
    /// The compositor gave a surface its size.
    Configure { surface: u32, width: u32, height: u32 },
    /// The pointer did something.
    Pointer(PointerEvent),
}

/// What is to be done outside in answer to an event.
#[derive(Clone, Debug)]
pub enum Action {
    /// Nothing.
    Idle,
    /// Release the resources of the surface of this record.
    Release(OutputSurface),
    /// Draw one frame of this layout on the surface and present it.
    Render { surface: u32, layout: FrameLayout },
    /// The surface was given a size for which there is no frame.
    Unrenderable { surface: u32, width: u32, height: u32 },
    /// Act on the outcome of a pointer event.
    Click(ClickOutcome),
}

/// The mathematical value of an [`Action`].
pub enum ActionView {
    Idle,
    Release(OutputSurface),
    Render { surface: u32, width: int, height: int },
    Unrenderable { surface: u32, width: u32, height: u32 },
    Click(Resolution),
}

impl View for Action {
    type V = ActionView;

    open spec fn view(&self) -> ActionView {
        match *self {
            Action::Idle => ActionView::Idle,
            Action::Release(record) => ActionView::Release(record),
            Action::Render { surface, layout } => ActionView::Render {
                surface,
                width: layout.spec_width(),
                height: layout.spec_height(),
            },
            Action::Unrenderable { surface, width, height } => ActionView::Unrenderable {
                surface,
                width,
                height,
            },
            Action::Click(outcome) => ActionView::Click(outcome@),
        }
    }
}

/// The surface records after `event`.
pub open spec fn records_after(records: Seq<OutputSurface>, event: Event) -> Seq<OutputSurface> {
    match event {
        Event::OutputConnected { output, surface: Some(surface) } => connected(
            records,
            output,
            surface,
        ),
        Event::OutputConnected { output, surface: None } => records,
        Event::OutputDisconnected { output } => disconnected(records, output),
        Event::SurfaceClosed { surface } => closed(records, surface),
        Event::Configure { surface, width, height } => configured(records, surface, width, height),
        Event::Pointer(_) => records,
    }
}

/// What is to be done in answer to `event`.
pub open spec fn action_for(
    records: Seq<OutputSurface>,
    items: Seq<IndexedView>,
    event: Event,
) -> ActionView {
    match event {
        Event::OutputConnected { .. } => ActionView::Idle,
        Event::OutputDisconnected { output } => {
            let i = first_index(records, crate::surface::by_output(output));
            if i < records.len() {
                ActionView::Release(records[i])
            } else {
                ActionView::Idle
            }
        },
        Event::SurfaceClosed { surface } => {
            let i = first_index(records, by_surface(surface));
            if i < records.len() {
                ActionView::Release(records[i])
            } else {
                ActionView::Idle
            }
        },
        Event::Configure { surface, width, height } => if renderable(width as int, height as int) {
            ActionView::Render { surface, width: width as int, height: height as int }
        } else {
            ActionView::Unrenderable { surface, width, height }
        },
        Event::Pointer(pointer) => ActionView::Click(resolve(records, items, pointer)),
    }
}

/// The color index and the surfaces of the connected displays.
#[derive(Debug)]
pub struct Launcher {
    index: DesktopIndex,
    surfaces: SurfaceSet,
}

impl Launcher {
    /// The indexed applications.
    pub closed spec fn items(&self) -> Seq<IndexedView> {
        self.index@
    }

    /// The surface records.
    pub closed spec fn records(&self) -> Seq<OutputSurface> {
        self.surfaces@
    }

    /// The launcher at startup: the index as built, and no surface.
    pub fn new(index: DesktopIndex) -> (launcher: Launcher)
        ensures
            launcher.items() == index@,
            launcher.records() == Seq::<OutputSurface>::empty(),
            well_formed(launcher.items()),
            distinct(launcher.records()),
    {
        proof {
            use_type_invariant(&index);
        }
        Launcher { index, surfaces: SurfaceSet::new() }
    }

    /// The color index.
    pub fn index(&self) -> (index: &DesktopIndex)
        ensures
            index@ == self.items(),
    {
        &self.index
    }

    /// The surfaces.
    pub fn surfaces(&self) -> (surfaces: &SurfaceSet)
        ensures
            surfaces@ == self.records(),
    {
        &self.surfaces
    }

    /// Takes one event: updates the surface records and says what is to be
    /// done. The index never changes.
    ///
    /// A display that connects gets a record for its surface, if one could
    /// be made. A display that disconnects, or a surface that is closed,
    /// loses its record, which is handed out for release. A configure event
    /// stores the new size in the surface's record and always asks for a
    /// frame of exactly that size, also for a surface without a record. A
    /// pointer event is resolved against the records and the index.
    pub fn handle(&mut self, event: Event) -> (action: Action)
        ensures
            final(self).items() == old(self).items(),
            final(self).records() == records_after(old(self).records(), event),
            action@ == action_for(old(self).records(), old(self).items(), event),
            well_formed(final(self).items()),
            distinct(final(self).records()),
    {
        proof {
            use_type_invariant(&self.index);
            use_type_invariant(&self.surfaces);
        }
        match event {
            Event::OutputConnected { output, surface } => {
                match surface {
                    Some(surface) => {
                        self.surfaces.connect(output, surface);
                    },
                    None => {},
                }
                Action::Idle
            },
            Event::OutputDisconnected { output } => match self.surfaces.disconnect(output) {
                Some(record) => Action::Release(record),
                None => Action::Idle,
            },
            Event::SurfaceClosed { surface } => match self.surfaces.close(surface) {
                Some(record) => Action::Release(record),
                None => Action::Idle,
            },
            Event::Configure { surface, width, height } => {
                self.surfaces.configure(surface, width, height);
                match FrameLayout::new(width, height) {
                    Some(layout) => Action::Render { surface, layout },
                    None => Action::Unrenderable { surface, width, height },
                }
            },
            Event::Pointer(pointer) => Action::Click(
                resolve_click(&self.surfaces, &self.index, &pointer),
            ),
        }
    }

    /// Takes a batch of pointer events and gives the outcome of each, in
    /// order. An event that comes to nothing, because its surface has no
    /// record or its command is refused, is dropped by itself: the events
    /// after it are resolved all the same.
    pub fn pointer_frame(&self, events: &Vec<PointerEvent>) -> (outcomes: Vec<ClickOutcome>)
        ensures
            outcome_views(outcomes@) == frame_outcomes(self.records(), self.items(), events@),
    {
        let mut outcomes: Vec<ClickOutcome> = Vec::new();
        let mut i: usize = 0;
        while i < events.len()
            invariant
                i <= events.len(),
                outcomes.len() == i,
                forall|k: int|
                    0 <= k < i ==> (#[trigger] outcomes@[k])@ == resolve(
                        self.records(),
                        self.items(),
                        events@[k],
                    ),
            decreases events.len() - i,
        {
            outcomes.push(resolve_click(&self.surfaces, &self.index, &events[i]));
            i += 1;
        }
        assert(outcome_views(outcomes@) =~= frame_outcomes(
            self.records(),
            self.items(),
            events@,
        ));
        outcomes
    }
}

/// Resolves one pointer event against the surfaces and the index.
///
/// Only a release of the primary button counts. The surface is looked up,
/// the position normalized by the surface's recorded size, the gradient
/// field evaluated there, and the application nearest to that color taken
/// from the index. Its exec template, cleared of the placeholders for files
/// and URIs, is the command to launch, unless another placeholder is left.
pub fn resolve_click(surfaces: &SurfaceSet, index: &DesktopIndex, event: &PointerEvent) -> (outcome:
    ClickOutcome)
    ensures
        outcome@ == resolve(surfaces@, index@, *event),
{
    match event.kind {
        PointerKind::Release { button } => {
            if button != PRIMARY_BUTTON {
                return ClickOutcome::Ignored;
            }
        },
        PointerKind::Other => {
            return ClickOutcome::Ignored;
        },
    }
    let record: OutputSurface = match surfaces.lookup(event.surface) {
        Some(record) => record,
        None => {
            return ClickOutcome::NoSurface;
        },
    };
    let color: Oklab = match normalize(event.x, event.y, record.width, record.height) {
        Some(point) => gradient(point),
        None => {
            return ClickOutcome::Outside;
        },
    };
    let app: usize = match index.nearest(&color) {
        Some(app) => app,
        None => {
            return ClickOutcome::NoMatch;
        },
    };
    let item = match index.get(app) {
        Some(item) => item,
        None => {
            return ClickOutcome::NoMatch;
        },
    };
    if item.entry.kind != EntryKind::Application {
        return ClickOutcome::NotLaunchable { app };
    }
    match &item.entry.exec_template {
        None => ClickOutcome::NotLaunchable { app },
        Some(template) => match sanitize_exec(template.as_str()) {
            Ok(command) => ClickOutcome::Launch { app, command },
            Err(CommandError::UnresolvedPlaceholder { command }) => ClickOutcome::Refused {
                app,
                command,
            },
        },
    }
}

} // verus!
