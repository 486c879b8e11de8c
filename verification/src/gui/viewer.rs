//! The image viewer's decisions: which frame it asks for, which uploads it
//! keeps, and when a save may start. Images are known by the ids of their
//! display handles; building pixels and uploading them is the caller's work.

use vstd::prelude::*;

use crate::gui::comparison::{Comparison, Transform};

verus! {

/// The three images of an experiment.
#[derive(Debug, Clone, Copy, PartialEq, Eq, Structural)]
pub enum ImageKind {
    Original,
    Shuffled,
    Restored,
}

/// What the viewer displays.
#[derive(Debug, Clone, Copy, PartialEq, Eq, Structural)]
pub enum Mode {
    Original,
    Restored,
    Shuffled,
    Blend,
    Wipe,
    Difference,
}

/// The caption of each mode.
pub open spec fn mode_label(mode: Mode) -> Seq<char> {
    match mode {
        Mode::Original => "Original"@,
        Mode::Restored => "Result"@,
        Mode::Shuffled => "Shuffled"@,
        Mode::Blend => "Onion skin"@,
        Mode::Wipe => "Before / after"@,
        Mode::Difference => "Difference"@,
    }
}

/// The suggested file name of each mode's snapshot.
pub open spec fn mode_file_name(mode: Mode) -> Seq<char> {
    match mode {
        Mode::Original => "original.png"@,
        Mode::Restored => "result.png"@,
        Mode::Shuffled => "shuffled.png"@,
        Mode::Blend => "onion-skin.png"@,
        Mode::Wipe => "before-after.png"@,
        Mode::Difference => "difference.png"@,
    }
}

impl Mode {
    /// The mode that shows one of the experiment's images.
    pub open spec fn mode_for(image: ImageKind) -> Mode {
        match image {
            ImageKind::Original => Mode::Original,
            ImageKind::Shuffled => Mode::Shuffled,
            ImageKind::Restored => Mode::Restored,
        }
    }

    /// The caption of this mode.
    pub fn label(self) -> (text: &'static str)
        ensures
            text@ == mode_label(self),
    {
        match self {
            Mode::Original => "Original",
            Mode::Restored => "Result",
            Mode::Shuffled => "Shuffled",
            Mode::Blend => "Onion skin",
            Mode::Wipe => "Before / after",
            Mode::Difference => "Difference",
        }
    }

    /// The suggested file name of this mode's snapshot.
    pub fn file_name(self) -> (text: &'static str)
        ensures
            text@ == mode_file_name(self),
    {
        match self {
            Mode::Original => "original.png",
            Mode::Restored => "result.png",
            Mode::Shuffled => "shuffled.png",
            Mode::Blend => "onion-skin.png",
            Mode::Wipe => "before-after.png",
            Mode::Difference => "difference.png",
        }
    }

    /// The mode that opens on one of the experiment's images.
    #[verifier::when_used_as_spec(mode_for)]
    pub fn for_image(image: ImageKind) -> (mode: Mode)
        ensures
            mode == Self::mode_for(image),
    {
        match image {
            ImageKind::Original => Mode::Original,
            ImageKind::Shuffled => Mode::Shuffled,
            ImageKind::Restored => Mode::Restored,
        }
    }
}

} // verus!

verus! {

/// An uploaded image, known by the id of its handle, with the view it was
/// made for.
#[derive(Debug, Clone, Copy, PartialEq, Eq)]
pub struct Frame {
    pub handle: u64,
    pub mode: Mode,
    /// The wipe's divider, in thousandths of the width, for a wipe frame.
    pub divider: Option<u32>,
    /// The navigation generation the frame was made in.
    pub reset_id: u64,
}

/// The handles of the images that stay uploaded while the viewer lives: the
/// centered original, the centered aligned result and the shuffled image.
#[derive(Debug, Clone, Copy, PartialEq, Eq)]
pub struct BaseHandles {
    pub original: u64,
    pub restored: u64,
    pub shuffled: u64,
}

impl BaseHandles {
    /// `handle` is one of the three.
    pub open spec fn holds(self, handle: u64) -> bool {
        handle == self.original || handle == self.restored || handle == self.shuffled
    }

    /// The handle that shows `mode` as it is, for the three single-image modes.
    pub open spec fn of(self, mode: Mode) -> Option<u64> {
        match mode {
            Mode::Original => Some(self.original),
            Mode::Restored => Some(self.restored),
            Mode::Shuffled => Some(self.shuffled),
            _ => None,
        }
    }
}

/// A request of the user or a report of finished work.
#[derive(Debug, PartialEq, Eq)]
pub enum Message {
    Close,
    SelectMode(Mode),
    /// Toggle between the original and the result.
    Swap,
    /// The onion skin's result opacity, in hundredths.
    BlendChanged(u32),
    /// The wipe's divider, in thousandths of the width from the left.
    DividerChanged(u32),
    /// The difference gain.
    GainChanged(u32),
    Transform(Transform),
    ResetAlignment,
    /// Reset zoom and pan.
    Fit,
    /// The upload of a handle finished; `Err` holds the reason it failed.
    ImageAllocated(u64, Result<(), String>),
    Save,
    /// The export of a handle finished: the saved file's name, `None` when the
    /// user cancelled, or the reason it failed.
    SaveFinished(u64, Result<Option<String>, String>),
}

/// What the caller must do next.
#[derive(Debug, Clone, Copy, PartialEq, Eq)]
pub enum Action {
    Nothing,
    /// Upload the handle, then report `ImageAllocated`.
    Upload(u64),
    /// Export the handle as a PNG, suggesting `mode`'s file name, then report
    /// `SaveFinished`.
    Export { handle: u64, mode: Mode },
    /// Build the frame of the current mode and settings and pass its new
    /// handle to `show`.
    Render,
    /// Turn the aligned result by the transform (`None`: restore the source
    /// result), compare it with the original again and pass the new handles to
    /// `realigned`.
    Realign(Option<Transform>),
}

/// One call on the viewer: `update`, `show`, `realigned`, `open` or `prepare`.
pub enum ViewerStep {
    Update(Message),
    Show(u64),
    Realigned(Option<u64>, u64),
    Open(ImageKind),
    Prepare,
}

/// The viewer as values: strings by their characters, the kept uploads as a
/// sequence.
#[verifier::ext_equal]
pub struct ViewerModel {
    pub base: BaseHandles,
    pub requested: u64,
    pub presented: Option<Frame>,
    pub retained: Seq<u64>,
    pub loading: Option<Frame>,
    pub load_error: Option<Seq<char>>,
    pub saving: Option<u64>,
    pub save_status: Option<Seq<char>>,
    pub mode: Mode,
    pub opacity: u32,
    pub divider: u32,
    pub gain: u32,
    pub reset_id: u64,
}

/// The characters of an optional text.
pub open spec fn text_of(text: Option<String>) -> Option<Seq<char>> {
    match text {
        Some(text) => Some(text@),
        None => None,
    }
}

/// The next navigation generation, wrapping at the top.
pub open spec fn next_id(id: u64) -> u64 {
    if id == u64::MAX {
        0
    } else {
        (id + 1) as u64
    }
}

/// Which uploads stay once `base` holds the base images.
pub open spec fn kept_by(base: BaseHandles) -> spec_fn(u64) -> bool {
    |handle: u64| base.holds(handle)
}

/// The status line after an export finished.
pub open spec fn save_text(result: Result<Option<String>, String>) -> Seq<char> {
    match result {
        Ok(Some(name)) => "Saved "@ + name@,
        Ok(None) => "Save canceled."@,
        Err(reason) => "Save failed: "@ + reason@,
    }
}

/// A new viewer of the images with handles `base`, opened on `image`.
pub open spec fn opened_on(base: BaseHandles, image: ImageKind) -> ViewerModel {
    ViewerModel {
        base,
        requested: base.of(Mode::for_image(image))->0,
        presented: None,
        retained: Seq::empty(),
        loading: None,
        load_error: None,
        saving: None,
        save_status: None,
        mode: Mode::for_image(image),
        opacity: 50,
        divider: 500,
        gain: 1,
        reset_id: 1,
    }
}

impl ViewerModel {
    /// Showing `image` again: its mode, its base handle asked for, and a new
    /// navigation generation; alignment and comparison settings stay.
    pub open spec fn reopened(self, image: ImageKind) -> ViewerModel {
        ViewerModel {
            mode: Mode::for_image(image),
            requested: self.base.of(Mode::for_image(image))->0,
            reset_id: next_id(self.reset_id),
            ..self
        }
    }

    /// A frame of `handle` for the current view.
    pub open spec fn frame_of(self, handle: u64) -> Frame {
        Frame {
            handle,
            mode: self.mode,
            divider: if self.mode == Mode::Wipe {
                Some(self.divider)
            } else {
                None
            },
            reset_id: self.reset_id,
        }
    }

    /// The slider settings lie in their ranges: opacity at most a hundred
    /// hundredths, the divider at most a thousand thousandths, the gain from
    /// one to sixteen.
    pub open spec fn settings_in_range(self) -> bool {
        &&& self.opacity <= 100
        &&& self.divider <= 1000
        &&& 1 <= self.gain <= 16
    }

    /// The viewer after `step`.
    pub open spec fn stepped(self, step: ViewerStep) -> ViewerModel {
        match step {
            ViewerStep::Update(message) => self.updated(message).0,
            ViewerStep::Show(handle) => self.shown(handle).0,
            ViewerStep::Realigned(original, restored) => self.realigned(original, restored).0,
            ViewerStep::Open(image) => self.reopened(image),
            ViewerStep::Prepare => self.prepared().0,
        }
    }

    /// The viewer after `steps`, in order.
    pub open spec fn after_steps(self, steps: Seq<ViewerStep>) -> ViewerModel
        decreases steps.len(),
    {
        if steps.len() == 0 {
            self
        } else {
            self.after_steps(steps.drop_last()).stepped(steps.last())
        }
    }

    /// The save button is enabled: a frame is on display and no save runs.
    pub open spec fn can_save(self) -> bool {
        self.presented is Some && self.saving is None
    }

    /// The requested image is already uploaded: on display or kept.
    pub open spec fn is_ready(self) -> bool {
        ||| (self.presented matches Some(frame) && frame.handle == self.requested)
        ||| self.retained.contains(self.requested)
    }

    /// `handle` on display for the current view, with any display error cleared.
    pub open spec fn presenting(self, handle: u64) -> ViewerModel {
        ViewerModel { presented: Some(self.frame_of(handle)), load_error: None, ..self }
    }

    /// Shows the requested image when it is uploaded; otherwise starts its
    /// upload, unless one is already under way.
    pub open spec fn prepared(self) -> (ViewerModel, Action) {
        if self.is_ready() {
            (self.presenting(self.requested), Action::Nothing)
        } else if self.loading is Some {
            (self, Action::Nothing)
        } else {
            (
                ViewerModel {
                    loading: Some(self.frame_of(self.requested)),
                    load_error: None,
                    ..self
                },
                Action::Upload(self.requested),
            )
        }
    }

    /// Asks for the image of the current mode: a base image directly, a
    /// composite by building it first.
    pub open spec fn refreshed(self) -> (ViewerModel, Action) {
        match self.base.of(self.mode) {
            Some(handle) => ViewerModel { requested: handle, ..self }.prepared(),
            None => (self, Action::Render),
        }
    }

    /// Asks for the freshly built frame `handle`.
    pub open spec fn shown(self, handle: u64) -> (ViewerModel, Action) {
        ViewerModel { requested: handle, ..self }.prepared()
    }

    /// The new comparison's handles in place, a new navigation generation, and
    /// only base images kept.
    pub open spec fn realigned(self, original: Option<u64>, restored: u64) -> (
        ViewerModel,
        Action,
    ) {
        let base = BaseHandles {
            original: match original {
                Some(handle) => handle,
                None => self.base.original,
            },
            restored,
            shuffled: self.base.shuffled,
        };
        ViewerModel {
            base,
            reset_id: next_id(self.reset_id),
            retained: self.retained.filter(kept_by(base)),
            ..self
        }.refreshed()
    }

    /// The end of the pending upload of `handle`.
    pub open spec fn allocated(self, handle: u64, result: Result<(), String>) -> (
        ViewerModel,
        Action,
    ) {
        let cleared = ViewerModel { loading: None, ..self };
        match self.loading {
            Some(pending) if pending.handle == handle => match result {
                Ok(()) => {
                    let kept = if self.base.holds(handle) {
                        ViewerModel { retained: self.retained.push(handle), ..cleared }
                    } else {
                        cleared
                    };
                    if handle == self.requested {
                        kept.presenting(handle).prepared()
                    } else if pending.mode == self.mode && pending.reset_id == self.reset_id {
                        ViewerModel { presented: Some(pending), ..kept }.prepared()
                    } else {
                        kept.prepared()
                    }
                },
                Err(reason) => if handle == self.requested {
                    (
                        ViewerModel {
                            load_error: Some("Could not display image: "@ + reason@),
                            ..cleared
                        },
                        Action::Nothing,
                    )
                } else {
                    cleared.prepared()
                },
            },
            _ => (self, Action::Nothing),
        }
    }

    /// The reaction to `message`.
    pub open spec fn updated(self, message: Message) -> (ViewerModel, Action) {
        match message {
            Message::Save => match (self.saving, self.presented) {
                (None, Some(frame)) => (
                    ViewerModel { saving: Some(frame.handle), save_status: None, ..self },
                    Action::Export { handle: frame.handle, mode: frame.mode },
                ),
                _ => (self, Action::Nothing),
            },
            Message::SaveFinished(handle, result) => if self.saving == Some(handle) {
                (
                    ViewerModel { saving: None, save_status: Some(save_text(result)), ..self },
                    Action::Nothing,
                )
            } else {
                (self, Action::Nothing)
            },
            Message::ImageAllocated(handle, result) => self.allocated(handle, result),
            Message::SelectMode(mode) => if mode == self.mode && self.load_error is None {
                (self, Action::Nothing)
            } else {
                ViewerModel { mode, ..self }.refreshed()
            },
            Message::Swap => ViewerModel {
                mode: if self.mode == Mode::Original {
                    Mode::Restored
                } else {
                    Mode::Original
                },
                ..self
            }.refreshed(),
            Message::BlendChanged(value) => ViewerModel {
                opacity: if value > 100 {
                    100
                } else {
                    value
                },
                ..self
            }.refreshed(),
            Message::DividerChanged(value) => ViewerModel {
                divider: if value > 1000 {
                    1000
                } else {
                    value
                },
                ..self
            }.refreshed(),
            Message::GainChanged(value) => ViewerModel {
                gain: if value < 1 {
                    1
                } else if value > 16 {
                    16
                } else {
                    value
                },
                ..self
            }.refreshed(),
            Message::Transform(operation) => (self, Action::Realign(Some(operation))),
            Message::ResetAlignment => (self, Action::Realign(None)),
            Message::Fit => {
                let id = next_id(self.reset_id);
                (
                    ViewerModel {
                        reset_id: id,
                        presented: match self.presented {
                            Some(frame) => Some(Frame { reset_id: id, ..frame }),
                            None => None,
                        },
                        ..self
                    },
                    Action::Nothing,
                )
            },
            Message::Close => (self, Action::Nothing),
        }
    }
}

/// The viewer of one experiment: its view settings and the state of its
/// uploads and export.
pub struct Viewer {
    pub base: BaseHandles,
    /// The image the current view asks for.
    pub requested: u64,
    /// The frame on display.
    pub presented: Option<Frame>,
    /// Uploaded base images, kept for instant switching.
    pub retained: Vec<u64>,
    /// The one upload under way.
    pub loading: Option<Frame>,
    pub load_error: Option<String>,
    /// The frame being exported.
    pub saving: Option<u64>,
    pub save_status: Option<String>,
    pub mode: Mode,
    /// The onion skin's result opacity, in hundredths.
    pub opacity: u32,
    /// The wipe's divider, in thousandths of the width.
    pub divider: u32,
    /// The difference gain.
    pub gain: u32,
    /// The navigation generation: zoom and pan reset whenever it changes.
    pub reset_id: u64,
}

impl View for Viewer {
    type V = ViewerModel;

    open spec fn view(&self) -> ViewerModel {
        ViewerModel {
            base: self.base,
            requested: self.requested,
            presented: self.presented,
            retained: self.retained@,
            loading: self.loading,
            load_error: text_of(self.load_error),
            saving: self.saving,
            save_status: text_of(self.save_status),
            mode: self.mode,
            opacity: self.opacity,
            divider: self.divider,
            gain: self.gain,
            reset_id: self.reset_id,
        }
    }
}


/// The column where the wipe switches to the result on a `width`-pixel canvas:
/// `thousandths` of the width, rounded down, and never past the canvas.
pub fn split_column(width: u32, thousandths: u32) -> (column: u32)
    ensures
        column == if width * thousandths / 1000 < width {
            width * thousandths / 1000
        } else {
            width as int
        },
{
    proof {
        assert(width * thousandths <= 0xffff_ffff * 0xffff_ffff) by (nonlinear_arith)
            requires
                width <= 0xffff_ffff,
                thousandths <= 0xffff_ffff,
        ;
    }
    let scaled: u64 = (width as u64) * (thousandths as u64) / 1000;
    if scaled < width as u64 {
        scaled as u32
    } else {
        width
    }
}

/// Whether two comparisons share one canvas size, so that the centered
/// original's image can be kept.
pub fn same_canvas(before: &Comparison, after: &Comparison) -> (same: bool)
    ensures
        same == (before.original.width == after.original.width && before.original.height
            == after.original.height),
{
    before.original.width == after.original.width && before.original.height
        == after.original.height
}

impl Viewer {
    /// A viewer of the images with the given handles, opened on `image`: the
    /// onion skin at half opacity, the divider in the middle, gain one, and
    /// nothing uploaded yet.
    pub fn new(base: BaseHandles, image: ImageKind) -> (viewer: Viewer)
        ensures
            viewer@ == opened_on(base, image),
    {
        let mut viewer = Viewer {
            base,
            requested: base.original,
            presented: None,
            retained: Vec::new(),
            loading: None,
            load_error: None,
            saving: None,
            save_status: None,
            mode: Mode::Original,
            opacity: 50,
            divider: 500,
            gain: 1,
            reset_id: 0,
        };
        viewer.open(image);
        viewer
    }

    /// Shows one of the experiment's images again, keeping alignment and
    /// comparison settings, and resets zoom and pan.
    pub fn open(&mut self, image: ImageKind)
        ensures
            final(self)@ == old(self)@.reopened(image),
    {
        let mode = Mode::for_image(image);
        self.mode = mode;
        self.requested = match mode {
            Mode::Original => self.base.original,
            Mode::Shuffled => self.base.shuffled,
            _ => self.base.restored,
        };
        self.reset_id = if self.reset_id == u64::MAX {
            0
        } else {
            self.reset_id + 1
        };
    }

    /// Whether the save button is enabled.
    pub fn can_save(&self) -> (enabled: bool)
        ensures
            enabled == self@.can_save(),
    {
        self.presented.is_some() && self.saving.is_none()
    }

    /// The line about saving: progress, the last save's outcome, or what
    /// saving does.
    pub fn save_line(&self) -> (text: String)
        ensures
            text@ == if self.saving is Some {
                "Saving image…"@
            } else {
                match self.save_status {
                    Some(status) => status@,
                    None => "Save exports the displayed image as PNG at its current pixel resolution."@,
                }
            },
    {
        if self.saving.is_some() {
            return String::from_str("Saving image…");
        }
        match &self.save_status {
            Some(status) => status.clone(),
            None => String::from_str(
                "Save exports the displayed image as PNG at its current pixel resolution.",
            ),
        }
    }

    fn frame(&self, handle: u64) -> (frame: Frame)
        ensures
            frame == self@.frame_of(handle),
    {
        let divider = match self.mode {
            Mode::Wipe => Some(self.divider),
            _ => None,
        };
        Frame { handle, mode: self.mode, divider, reset_id: self.reset_id }
    }

    fn present(&mut self, handle: u64)
        ensures
            final(self)@ == old(self)@.presenting(handle),
    {
        self.presented = Some(self.frame(handle));
        self.load_error = None;
    }

    fn is_ready(&self) -> (ready: bool)
        ensures
            ready == self@.is_ready(),
    {
        if let Some(frame) = self.presented {
            if frame.handle == self.requested {
                return true;
            }
        }
        let mut i: usize = 0;
        while i < self.retained.len()
            invariant
                i <= self.retained@.len(),
                forall|k: int| 0 <= k < i ==> self.retained@[k] != self.requested,
            decreases self.retained@.len() - i,
        {
            if self.retained[i] == self.requested {
                return true;
            }
            i = i + 1;
        }
        false
    }

    /// Shows the requested image when it is uploaded; otherwise starts its
    /// upload, unless one is already under way, so that rapid changes replace
    /// the wanted frame instead of queueing every one.
    pub fn prepare(&mut self) -> (action: Action)
        ensures
            final(self)@ == old(self)@.prepared().0,
            action == old(self)@.prepared().1,
    {
        if self.is_ready() {
            let requested = self.requested;
            self.present(requested);
            Action::Nothing
        } else if self.loading.is_some() {
            Action::Nothing
        } else {
            self.loading = Some(self.frame(self.requested));
            self.load_error = None;
            Action::Upload(self.requested)
        }
    }

    /// Asks for the freshly built frame `handle` of the current view.
    pub fn show(&mut self, handle: u64) -> (action: Action)
        ensures
            final(self)@ == old(self)@.shown(handle).0,
            action == old(self)@.shown(handle).1,
    {
        self.requested = handle;
        self.prepare()
    }

    fn is_base(&self, handle: u64) -> (base: bool)
        ensures
            base == self.base.holds(handle),
    {
        handle == self.base.original || handle == self.base.restored || handle
            == self.base.shuffled
    }

    /// Takes the handles of a rebuilt comparison: `original` when its canvas
    /// changed size, always the aligned result's. Zoom and pan reset, only base
    /// images stay uploaded, and the current mode is asked for again.
    pub fn realigned(&mut self, original: Option<u64>, restored: u64) -> (action: Action)
        ensures
            final(self)@ == old(self)@.realigned(original, restored).0,
            action == old(self)@.realigned(original, restored).1,
    {
        if let Some(handle) = original {
            self.base.original = handle;
        }
        self.base.restored = restored;
        self.reset_id = if self.reset_id == u64::MAX {
            0
        } else {
            self.reset_id + 1
        };
        let ghost keep = kept_by(self.base);
        let mut kept: Vec<u64> = Vec::new();
        let mut i: usize = 0;
        while i < self.retained.len()
            invariant
                i <= self.retained@.len(),
                keep == kept_by(self.base),
                kept@ == self.retained@.take(i as int).filter(keep),
            decreases self.retained@.len() - i,
        {
            let handle = self.retained[i];
            proof {
                reveal(Seq::filter);
                assert(self.retained@.take(i + 1).drop_last() =~= self.retained@.take(i as int));
                assert(self.retained@.take(i + 1).last() == handle);
            }
            if self.is_base(handle) {
                kept.push(handle);
            }
            i = i + 1;
        }
        proof {
            assert(self.retained@.take(self.retained@.len() as int) =~= self.retained@);
        }
        self.retained = kept;
        self.refresh()
    }

    fn allocated(&mut self, handle: u64, result: Result<(), String>) -> (action: Action)
        ensures
            final(self)@ == old(self)@.allocated(handle, result).0,
            action == old(self)@.allocated(handle, result).1,
    {
        let pending = match self.loading {
            Some(pending) => pending,
            None => return Action::Nothing,
        };
        if pending.handle != handle {
            return Action::Nothing;
        }
        self.loading = None;
        match result {
            Ok(()) => {
                if self.is_base(handle) {
                    self.retained.push(handle);
                }
                if handle == self.requested {
                    self.present(handle);
                } else if pending.mode == self.mode && pending.reset_id == self.reset_id {
                    self.presented = Some(pending);
                }
                self.prepare()
            },
            Err(reason) => {
                if handle == self.requested {
                    self.load_error = Some(
                        String::from_str("Could not display image: ").concat(reason.as_str()),
                    );
                    Action::Nothing
                } else {
                    self.prepare()
                }
            },
        }
    }

    /// Reacts to `message`. A save starts only when none is under way and a
    /// frame is on display, and it exports that frame; reports of uploads and
    /// exports that are no longer awaited change nothing.
    pub fn update(&mut self, message: Message) -> (action: Action)
        ensures
            final(self)@ == old(self)@.updated(message).0,
            action == old(self)@.updated(message).1,
    {
        match message {
            Message::Save => {
                if self.saving.is_some() {
                    return Action::Nothing;
                }
                match self.presented {
                    Some(frame) => {
                        self.saving = Some(frame.handle);
                        self.save_status = None;
                        Action::Export { handle: frame.handle, mode: frame.mode }
                    },
                    None => Action::Nothing,
                }
            },
            Message::SaveFinished(handle, result) => {
                let awaited = match self.saving {
                    Some(saving) => saving == handle,
                    None => false,
                };
                if !awaited {
                    return Action::Nothing;
                }
                let text = match result {
                    Ok(Some(name)) => String::from_str("Saved ").concat(name.as_str()),
                    Ok(None) => String::from_str("Save canceled."),
                    Err(reason) => String::from_str("Save failed: ").concat(reason.as_str()),
                };
                self.saving = None;
                self.save_status = Some(text);
                Action::Nothing
            },
            Message::ImageAllocated(handle, result) => self.allocated(handle, result),
            Message::SelectMode(mode) => {
                if mode == self.mode && self.load_error.is_none() {
                    return Action::Nothing;
                }
                self.mode = mode;
                self.refresh()
            },
            Message::Swap => {
                self.mode = if self.mode == Mode::Original {
                    Mode::Restored
                } else {
                    Mode::Original
                };
                self.refresh()
            },
            Message::BlendChanged(value) => {
                self.opacity = if value > 100 {
                    100
                } else {
                    value
                };
                self.refresh()
            },
            Message::DividerChanged(value) => {
                self.divider = if value > 1000 {
                    1000
                } else {
                    value
                };
                self.refresh()
            },
            Message::GainChanged(value) => {
                self.gain = if value < 1 {
                    1
                } else if value > 16 {
                    16
                } else {
                    value
                };
                self.refresh()
            },
            Message::Transform(operation) => Action::Realign(Some(operation)),
            Message::ResetAlignment => Action::Realign(None),
            Message::Fit => {
                let id = if self.reset_id == u64::MAX {
                    0
                } else {
                    self.reset_id + 1
                };
                self.reset_id = id;
                if let Some(frame) = self.presented {
                    self.presented = Some(Frame { reset_id: id, ..frame });
                }
                Action::Nothing
            },
            Message::Close => Action::Nothing,
        }
    }

    fn refresh(&mut self) -> (action: Action)
        ensures
            final(self)@ == old(self)@.refreshed().0,
            action == old(self)@.refreshed().1,
    {
        match self.mode {
            Mode::Original => {
                self.requested = self.base.original;
                self.prepare()
            },
            Mode::Restored => {
                self.requested = self.base.restored;
                self.prepare()
            },
            Mode::Shuffled => {
                self.requested = self.base.shuffled;
                self.prepare()
            },
            _ => Action::Render,
        }
    }
}

/// A report of an upload that is not the one under way, or of an export that
/// is not awaited, changes nothing and asks for nothing.
pub proof fn lemma_stale_reports_change_nothing(viewer: ViewerModel, message: Message)
    requires
        match message {
            Message::ImageAllocated(handle, _) => !(viewer.loading matches Some(pending)
                && pending.handle == handle),
            Message::SaveFinished(handle, _) => viewer.saving != Some(handle),
            _ => false,
        },
    ensures
        viewer.updated(message) == (viewer, Action::Nothing),
{
}

/// At most one upload is under way: while one is, no request but the report
/// of its end starts another.
pub proof fn lemma_one_upload_at_a_time(viewer: ViewerModel, message: Message)
    requires
        viewer.loading is Some,
        !(message is ImageAllocated),
    ensures
        !(viewer.updated(message).1 is Upload),
{
}

/// A frame on display stays on display until another replaces it.
pub proof fn lemma_display_is_never_emptied(viewer: ViewerModel, message: Message)
    requires
        viewer.presented is Some,
    ensures
        viewer.updated(message).0.presented is Some,
{
}

/// The save button is enabled exactly when saving would start an export, and
/// the export is of the frame on display.
pub proof fn lemma_save_button_matches_save(viewer: ViewerModel)
    ensures
        viewer.can_save() <==> viewer.updated(Message::Save).1 is Export,
        viewer.can_save() ==> viewer.updated(Message::Save).1 == (Action::Export {
            handle: viewer.presented->0.handle,
            mode: viewer.presented->0.mode,
        }),
{
}

/// The slider settings stay in their ranges: a new viewer starts in them, and
/// no sequence of calls leads out of them.
pub proof fn lemma_settings_stay_in_range(base: BaseHandles, image: ImageKind, steps: Seq<ViewerStep>)
    ensures
        opened_on(base, image).settings_in_range(),
        opened_on(base, image).after_steps(steps).settings_in_range(),
    decreases steps.len(),
{
    if steps.len() > 0 {
        lemma_settings_stay_in_range(base, image, steps.drop_last());
        lemma_step_keeps_settings_in_range(
            opened_on(base, image).after_steps(steps.drop_last()),
            steps.last(),
        );
    }
}

/// Each call keeps the slider settings in their ranges.
pub proof fn lemma_step_keeps_settings_in_range(viewer: ViewerModel, step: ViewerStep)
    requires
        viewer.settings_in_range(),
    ensures
        viewer.stepped(step).settings_in_range(),
{
}

/// Swap toggles between the original and the result: from the original it
/// shows the result, from any other mode the original; so swapping twice from
/// either of the two comes back to it. The settings and the base images stay.
pub proof fn lemma_swap_toggles_original_and_result(viewer: ViewerModel)
    ensures
        viewer.updated(Message::Swap).0.mode == (if viewer.mode == Mode::Original {
            Mode::Restored
        } else {
            Mode::Original
        }),
        viewer.mode == Mode::Original || viewer.mode == Mode::Restored ==> viewer.updated(
            Message::Swap,
        ).0.updated(Message::Swap).0.mode == viewer.mode,
        viewer.updated(Message::Swap).0.requested == (if viewer.mode == Mode::Original {
            viewer.base.restored
        } else {
            viewer.base.original
        }),
        viewer.updated(Message::Swap).0.base == viewer.base,
        viewer.updated(Message::Swap).0.opacity == viewer.opacity,
        viewer.updated(Message::Swap).0.divider == viewer.divider,
        viewer.updated(Message::Swap).0.gain == viewer.gain,
{
}

} // verus!
