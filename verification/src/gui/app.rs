//! The experiment window's decisions: which requests it accepts, what it asks
//! the surrounding event loop to do, and how its status moves.

use vstd::prelude::*;

use crate::gui::controls_state::{
    decimal_value, parsed_unsigned, positive_integer_answer, unsigned_digits, validate_integer_u32, validate_integer_usize,
    validate_seed, ValidatedBinding,
};
use crate::gui::viewer::{self, opened_on, BaseHandles, ImageKind, Viewer};
use crate::memetic::{default_config, SolverConfig};

verus! {

/// A character of the Unicode `White_Space` property, which `str::trim` removes.
pub open spec fn is_white_space(c: char) -> bool {
    ||| '\u{9}' <= c <= '\u{d}'
    ||| c == ' '
    ||| c == '\u{85}'
    ||| c == '\u{a0}'
    ||| c == '\u{1680}'
    ||| '\u{2000}' <= c <= '\u{200a}'
    ||| c == '\u{2028}'
    ||| c == '\u{2029}'
    ||| c == '\u{202f}'
    ||| c == '\u{205f}'
    ||| c == '\u{3000}'
}

/// `text` holds nothing but white space.
pub open spec fn is_blank(text: Seq<char>) -> bool {
    forall|i: int| 0 <= i < text.len() ==> is_white_space(#[trigger] text[i])
}

/// `inner` is `text` without its leading and trailing white space: a slice
/// of it, with only white space cut on either side, that neither starts nor
/// ends with white space.
pub open spec fn is_trim_of(inner: Seq<char>, text: Seq<char>) -> bool {
    exists|start: int, end: int|
        #![trigger text.subrange(start, end)]
        0 <= start <= end <= text.len() && inner == text.subrange(start, end) && trims_at(
            inner,
            text,
            start,
            end,
        )
}

/// Only white space lies before `start` and from `end` on, and `inner`
/// neither starts nor ends with it.
pub open spec fn trims_at(inner: Seq<char>, text: Seq<char>, start: int, end: int) -> bool {
    &&& forall|i: int| 0 <= i < start ==> is_white_space(#[trigger] text[i])
    &&& forall|i: int| end <= i < text.len() ==> is_white_space(#[trigger] text[i])
    &&& inner.len() > 0 ==> !is_white_space(inner[0]) && !is_white_space(inner.last())
}

/// `str::trim`: the slice of `text` without its leading and trailing
/// characters of the Unicode `White_Space` property.
#[verifier::external_body]
fn trim(text: &str) -> (inner: &str)
    ensures
        is_trim_of(inner@, text@),
{
    text.trim()
}

/// Whether `text` is empty once trimmed.
fn blank(text: &str) -> (result: bool)
    ensures
        result == is_blank(text@),
{
    let inner = trim(text);
    let result = inner.unicode_len() == 0;
    proof {
        let (start, end) = choose|start: int, end: int|
            #![trigger text@.subrange(start, end)]
            0 <= start <= end <= text@.len() && inner@ == text@.subrange(start, end) && trims_at(
                inner@,
                text@,
                start,
                end,
            );
        if result {
            assert forall|i: int| 0 <= i < text@.len() implies is_white_space(#[trigger] text@[i]) by {
                if i < start {
                } else {
                    assert(end <= i);
                }
            }
        } else {
            assert(text@[start] == inner@[0]);
        }
    }
    result
}

/// Where the experiment stands.
#[derive(Debug, Clone, PartialEq, Eq)]
pub enum Status {
    Ready,
    Running,
    Complete,
    Failed(String),
}

/// An edit of one of the settings fields.
#[derive(Debug, Clone, PartialEq, Eq)]
pub enum ControlsMessage {
    InputChanged(String),
    PreviewSizeChanged(String),
    RngSeedChanged(String),
    GenerationsChanged(String),
    PopulationSizeChanged(String),
    LocalPassesChanged(String),
}

/// What happened: a request of the user or a report of the experiment.
#[derive(Debug, PartialEq, Eq)]
pub enum Message {
    CloseWindow,
    FocusNext,
    FocusPrevious,
    OpenFileDialog,
    /// The chosen file, or `None` when the dialog was cancelled.
    FileDialogResult(Option<String>),
    RunExperiment,
    ExperimentProgress,
    /// The experiment's end: success, or the reason it failed.
    ExperimentFinished(Result<(), String>),
    OpenImage(ImageKind),
    Controls(ControlsMessage),
    Viewer(viewer::Message),
}

/// What the event loop must do next.
#[derive(Debug, Clone, PartialEq, Eq)]
pub enum Effect {
    Nothing,
    CloseWindow,
    FocusNext,
    FocusPrevious,
    OpenFileDialog,
    /// Run an experiment on the image at `input_path`, resized to at most
    /// `preview_size` pixels per side.
    StartExperiment { input_path: String, preview_size: u32, config: SolverConfig },
    /// Make the display handles of the finished experiment's images and pass
    /// them to `attach_viewer` with this image.
    CreateViewer(ImageKind),
    /// What the viewer asks for.
    Viewer(viewer::Action),
}

/// What happens to the progress bar.
#[derive(Debug, Clone, Copy, PartialEq, Eq)]
pub enum ProgressChange {
    Keep,
    /// Back to zero.
    Reset,
    /// Raise to a reported fraction, never lowering it.
    Raise,
    /// Full.
    Complete,
}

/// A pressed key, as the shortcuts read it.
#[derive(Debug, Clone, PartialEq, Eq)]
pub enum Key {
    /// A key that types text.
    Character(String),
    Tab,
    Escape,
    Space,
    Other,
}

/// The modifier keys held, with the platform's command key (Control, or the
/// logo key on macOS) apart from the other one of the two.
#[derive(Debug, Clone, Copy, PartialEq, Eq)]
pub struct Modifiers {
    pub shift: bool,
    pub alt: bool,
    pub command: bool,
    /// Control or the logo key, whichever is not the command key.
    pub other: bool,
}

/// `text` is the letter W, in either case.
pub open spec fn is_w(text: Seq<char>) -> bool {
    text == seq!['w'] || text == seq!['W']
}

/// The window's shortcuts: the command key with W closes the window, even
/// when a control has taken the key; Tab moves the focus forward and
/// Shift-Tab backward, unless a control has taken the key or another modifier
/// is held.
pub open spec fn shortcut_for(key: Key, modifiers: Modifiers, repeat: bool, captured: bool) -> Option<
    Message,
> {
    match key {
        Key::Character(text) => if is_w(text@) && modifiers == (Modifiers {
            shift: false,
            alt: false,
            command: true,
            other: false,
        }) && !repeat {
            Some(Message::CloseWindow)
        } else {
            None
        },
        Key::Tab => if !captured && !modifiers.alt && !modifiers.command && !modifiers.other {
            Some(
                if modifiers.shift {
                    Message::FocusPrevious
                } else {
                    Message::FocusNext
                },
            )
        } else {
            None
        },
        _ => None,
    }
}

/// The message of a key press, if it is one of the window's shortcuts;
/// `captured` tells that a control has already handled the key.
pub fn keyboard_shortcut(key: &Key, modifiers: Modifiers, repeat: bool, captured: bool) -> (message:
    Option<Message>)
    ensures
        message == shortcut_for(*key, modifiers, repeat, captured),
{
    match key {
        Key::Character(text) => {
            let text = text.as_str();
            let w = text.unicode_len() == 1 && (text.get_char(0) == 'w' || text.get_char(0) == 'W');
            proof {
                if text@.len() == 1 {
                    if text@[0] == 'w' {
                        assert(text@ =~= seq!['w']);
                    } else if text@[0] == 'W' {
                        assert(text@ =~= seq!['W']);
                    }
                }
            }
            if w && !modifiers.shift && !modifiers.alt && modifiers.command && !modifiers.other
                && !repeat {
                Some(Message::CloseWindow)
            } else {
                None
            }
        },
        Key::Tab => if !captured && !modifiers.alt && !modifiers.command && !modifiers.other {
            if modifiers.shift {
                Some(Message::FocusPrevious)
            } else {
                Some(Message::FocusNext)
            }
        } else {
            None
        },
        _ => None,
    }
}

/// The settings fields of the window.
pub struct AppControlsState<P, S, G, N, L> where
    P: Fn(&str) -> Result<u32, String>,
    S: Fn(&str) -> Result<u64, String>,
    G: Fn(&str) -> Result<usize, String>,
    N: Fn(&str) -> Result<usize, String>,
    L: Fn(&str) -> Result<usize, String>,
 {
    pub input_path: String,
    pub preview_size: ValidatedBinding<u32, String, P>,
    pub rng_seed: ValidatedBinding<u64, String, S>,
    pub generations: ValidatedBinding<usize, String, G>,
    pub population_size: ValidatedBinding<usize, String, N>,
    pub local_passes: ValidatedBinding<usize, String, L>,
}

impl<P, S, G, N, L> AppControlsState<P, S, G, N, L> where
    P: Fn(&str) -> Result<u32, String>,
    S: Fn(&str) -> Result<u64, String>,
    G: Fn(&str) -> Result<usize, String>,
    N: Fn(&str) -> Result<usize, String>,
    L: Fn(&str) -> Result<usize, String>,
 {
    /// The initial fields: the bundled image, a 256-pixel preview, seed 42,
    /// 1000 generations, a population of 100 and 10 local passes, each checked
    /// by the given validator.
    pub fn with_validators(
        preview_size: P,
        rng_seed: S,
        generations: G,
        population_size: N,
        local_passes: L,
    ) -> (controls: Self)
        requires
            forall|text: &str| call_requires(preview_size, (text,)),
            forall|text: &str| call_requires(rng_seed, (text,)),
            forall|text: &str| call_requires(generations, (text,)),
            forall|text: &str| call_requires(population_size, (text,)),
            forall|text: &str| call_requires(local_passes, (text,)),
        ensures
            controls.input_path@ == "images/penguin.jpg"@,
            controls.preview_size.validated() == 256,
            controls.preview_size.valid(),
            controls.rng_seed.validated() == 42,
            controls.rng_seed.valid(),
            controls.generations.validated() == 1000,
            controls.population_size.validated() == 100,
            controls.local_passes.validated() == 10,
            controls.preview_size.check() == preview_size,
            controls.rng_seed.check() == rng_seed,
            controls.generations.check() == generations,
            controls.population_size.check() == population_size,
            controls.local_passes.check() == local_passes,
    {
        AppControlsState {
            input_path: String::from_str("images/penguin.jpg"),
            preview_size: ValidatedBinding::new(256u32, preview_size),
            rng_seed: ValidatedBinding::new(42u64, rng_seed),
            generations: ValidatedBinding::new(1000usize, generations),
            population_size: ValidatedBinding::new(100usize, population_size),
            local_passes: ValidatedBinding::new(10usize, local_passes),
        }
    }
}

/// `result` is the answer of a positive-integer field whose type's largest
/// value is `max` to `text`: the number, or the refusal's message.
pub open spec fn answers_positive<T>(text: &str, result: Result<T, String>, max: nat, value: spec_fn(T) -> nat) -> bool {
    match positive_integer_answer(text@, max) {
        Ok(number) => result matches Ok(accepted) && value(accepted) == number,
        Err(message) => result matches Err(refusal) && refusal@ == message,
    }
}

/// `result` is the seed field's answer to `text`: any unsigned 64-bit number,
/// or the refusal's message.
pub open spec fn answers_seed(text: &str, result: Result<u64, String>) -> bool {
    match parsed_unsigned(text@, u64::MAX as nat) {
        Some(number) => result == Ok::<u64, String>(number as u64),
        None => result matches Err(refusal) && refusal@ == "Seed must be an unsigned integer"@,
    }
}

/// A positive-integer field refuses zero, whatever its type: its answer to
/// "0" is the message that the value must be greater than zero.
pub proof fn lemma_positive_fields_refuse_zero<T>(
    text: &str,
    result: Result<T, String>,
    max: nat,
    value: spec_fn(T) -> nat,
)
    requires
        text@ == "0"@,
        answers_positive(text, result, max, value),
    ensures
        result matches Err(refusal) && refusal@ == "Preview size must be greater than zero"@,
{
    reveal_strlit("0");
    let digits = unsigned_digits(text@);
    assert(digits =~= seq!['0']);
    assert(digits.drop_last() =~= Seq::<char>::empty());
    assert(decimal_value(Seq::<char>::empty()) == 0);
    assert(digits.last() == '0');
    assert(decimal_value(digits) == 0);
}

/// The window's fields with the validators of this crate: the preview size,
/// generations, population and local passes accept positive integers only,
/// and the seed any unsigned 64-bit number.
pub fn default_controls() -> (controls: AppControlsState<
    impl Fn(&str) -> Result<u32, String>,
    impl Fn(&str) -> Result<u64, String>,
    impl Fn(&str) -> Result<usize, String>,
    impl Fn(&str) -> Result<usize, String>,
    impl Fn(&str) -> Result<usize, String>,
>)
    ensures
        controls.input_path@ == "images/penguin.jpg"@,
        controls.preview_size.validated() == 256,
        controls.preview_size.valid(),
        controls.rng_seed.validated() == 42,
        controls.rng_seed.valid(),
        controls.generations.validated() == 1000,
        controls.population_size.validated() == 100,
        controls.local_passes.validated() == 10,
        forall|text: &str| call_requires(controls.preview_size.check(), (text,)),
        forall|text: &str| call_requires(controls.rng_seed.check(), (text,)),
        forall|text: &str| call_requires(controls.generations.check(), (text,)),
        forall|text: &str| call_requires(controls.population_size.check(), (text,)),
        forall|text: &str| call_requires(controls.local_passes.check(), (text,)),
        forall|text: &str, result: Result<u32, String>|
            call_ensures(controls.preview_size.check(), (text,), result) ==> answers_positive(
                text,
                result,
                u32::MAX as nat,
                |v: u32| v as nat,
            ),
        forall|text: &str, result: Result<u64, String>|
            call_ensures(controls.rng_seed.check(), (text,), result) ==> answers_seed(text, result),
        forall|text: &str, result: Result<usize, String>|
            call_ensures(controls.generations.check(), (text,), result) ==> answers_positive(
                text,
                result,
                usize::MAX as nat,
                |v: usize| v as nat,
            ),
        forall|text: &str, result: Result<usize, String>|
            call_ensures(controls.population_size.check(), (text,), result) ==> answers_positive(
                text,
                result,
                usize::MAX as nat,
                |v: usize| v as nat,
            ),
        forall|text: &str, result: Result<usize, String>|
            call_ensures(controls.local_passes.check(), (text,), result) ==> answers_positive(
                text,
                result,
                usize::MAX as nat,
                |v: usize| v as nat,
            ),
{
    AppControlsState::with_validators(
        validate_integer_u32,
        validate_seed,
        validate_integer_usize,
        validate_integer_usize,
        validate_integer_usize,
    )
}

/// The experiment window.
pub struct App<P, S, G, N, L> where
    P: Fn(&str) -> Result<u32, String>,
    S: Fn(&str) -> Result<u64, String>,
    G: Fn(&str) -> Result<usize, String>,
    N: Fn(&str) -> Result<usize, String>,
    L: Fn(&str) -> Result<usize, String>,
 {
    pub controls: AppControlsState<P, S, G, N, L>,
    pub status: Status,
    /// A finished experiment's images are on display.
    pub has_preview: bool,
    /// The viewer of the finished experiment; it keeps its alignment while closed.
    pub viewer: Option<Viewer>,
    pub viewer_open: bool,
    pub config: SolverConfig,
}

impl<P, S, G, N, L> App<P, S, G, N, L> where
    P: Fn(&str) -> Result<u32, String>,
    S: Fn(&str) -> Result<u64, String>,
    G: Fn(&str) -> Result<usize, String>,
    N: Fn(&str) -> Result<usize, String>,
    L: Fn(&str) -> Result<usize, String>,
 {
    /// The running status.
    pub open spec fn running(&self) -> bool {
        self.status == Status::Running
    }

    /// A ready window with the given fields and the default search settings.
    pub fn new(controls: AppControlsState<P, S, G, N, L>) -> (app: Self)
        ensures
            app.controls == controls,
            app.status == Status::Ready,
            !app.has_preview,
            app.viewer is None,
            !app.viewer_open,
            app.config == default_config(),
    {
        App {
            controls,
            status: Status::Ready,
            has_preview: false,
            viewer: None,
            viewer_open: false,
            config: SolverConfig::default(),
        }
    }

    /// Whether an experiment is running.
    pub fn is_running(&self) -> (running: bool)
        ensures
            running == self.running(),
    {
        match self.status {
            Status::Running => true,
            _ => false,
        }
    }

    /// The window after dropping its experiment: ready, with no result and no
    /// viewer, everything else as `self`.
    pub open spec fn forgotten(self, after: Self) -> bool {
        &&& after.status == Status::Ready
        &&& !after.has_preview
        &&& after.viewer is None
        &&& !after.viewer_open
        &&& after.config == self.config
        &&& after.controls.preview_size == self.controls.preview_size
        &&& after.controls.rng_seed == self.controls.rng_seed
        &&& after.controls.generations == self.controls.generations
        &&& after.controls.population_size == self.controls.population_size
        &&& after.controls.local_passes == self.controls.local_passes
    }

    /// `after` is `self` with only the status replaced.
    pub open spec fn with_status(self, after: Self, status: Status) -> bool {
        &&& after.status == status
        &&& after.controls == self.controls
        &&& after.has_preview == self.has_preview
        &&& after.viewer == self.viewer
        &&& after.viewer_open == self.viewer_open
        &&& after.config == self.config
    }

    /// `after` is `self` with only the settings fields and search settings
    /// changed as `message` asks.
    pub open spec fn edited(self, after: Self, message: ControlsMessage) -> bool {
        &&& after.status == self.status
        &&& after.has_preview == self.has_preview
        &&& after.viewer == self.viewer
        &&& after.viewer_open == self.viewer_open
        &&& after.controls.input_path == self.controls.input_path
        &&& match message {
            ControlsMessage::PreviewSizeChanged(text) => exists|shown: &str, result: Result<u32, String>|
                shown@ == text@ && #[trigger] self.controls.preview_size.is_update(
                    after.controls.preview_size,
                    shown,
                    result,
                ) && after.config == self.config && after.controls.rng_seed
                    == self.controls.rng_seed && after.controls.generations
                    == self.controls.generations && after.controls.population_size
                    == self.controls.population_size && after.controls.local_passes
                    == self.controls.local_passes,
            ControlsMessage::RngSeedChanged(text) => exists|shown: &str, result: Result<u64, String>|
                shown@ == text@ && #[trigger] self.controls.rng_seed.is_update(
                    after.controls.rng_seed,
                    shown,
                    result,
                ) && after.config == (match result {
                    Ok(seed) => SolverConfig { seed, ..self.config },
                    Err(_) => self.config,
                }) && after.controls.preview_size == self.controls.preview_size
                    && after.controls.generations == self.controls.generations
                    && after.controls.population_size == self.controls.population_size
                    && after.controls.local_passes == self.controls.local_passes,
            ControlsMessage::GenerationsChanged(text) => exists|
                shown: &str,
                result: Result<usize, String>,
            |
                shown@ == text@ && #[trigger] self.controls.generations.is_update(
                    after.controls.generations,
                    shown,
                    result,
                ) && after.config == (match result {
                    Ok(generations) => SolverConfig { generations, ..self.config },
                    Err(_) => self.config,
                }) && after.controls.preview_size == self.controls.preview_size
                    && after.controls.rng_seed == self.controls.rng_seed
                    && after.controls.population_size == self.controls.population_size
                    && after.controls.local_passes == self.controls.local_passes,
            ControlsMessage::PopulationSizeChanged(text) => exists|
                shown: &str,
                result: Result<usize, String>,
            |
                shown@ == text@ && #[trigger] self.controls.population_size.is_update(
                    after.controls.population_size,
                    shown,
                    result,
                ) && after.config == (match result {
                    Ok(population) => SolverConfig { population, ..self.config },
                    Err(_) => self.config,
                }) && after.controls.preview_size == self.controls.preview_size
                    && after.controls.rng_seed == self.controls.rng_seed
                    && after.controls.generations == self.controls.generations
                    && after.controls.local_passes == self.controls.local_passes,
            ControlsMessage::LocalPassesChanged(text) => exists|
                shown: &str,
                result: Result<usize, String>,
            |
                shown@ == text@ && #[trigger] self.controls.local_passes.is_update(
                    after.controls.local_passes,
                    shown,
                    result,
                ) && after.config == (match result {
                    Ok(local_passes) => SolverConfig { local_passes, ..self.config },
                    Err(_) => self.config,
                }) && after.controls.preview_size == self.controls.preview_size
                    && after.controls.rng_seed == self.controls.rng_seed
                    && after.controls.generations == self.controls.generations
                    && after.controls.population_size == self.controls.population_size,
            ControlsMessage::InputChanged(_) => false,
        }
    }

    /// `after` and `outcome` are what `update` makes of `self` and `message`.
    pub open spec fn updates(self, message: Message, after: Self, outcome: (Effect, ProgressChange)) -> bool {
        match message {
            Message::CloseWindow => outcome == (Effect::CloseWindow, ProgressChange::Keep)
                && after == self,
            Message::FocusNext => outcome == (if self.running() {
                (Effect::Nothing, ProgressChange::Keep)
            } else {
                (Effect::FocusNext, ProgressChange::Keep)
            }) && after == self,
            Message::FocusPrevious => outcome == (if self.running() {
                (Effect::Nothing, ProgressChange::Keep)
            } else {
                (Effect::FocusPrevious, ProgressChange::Keep)
            }) && after == self,
            Message::OpenFileDialog => outcome == (if self.running() {
                (Effect::Nothing, ProgressChange::Keep)
            } else {
                (Effect::OpenFileDialog, ProgressChange::Keep)
            }) && after == self,
            Message::FileDialogResult(Some(path)) => if self.running() {
                outcome == (Effect::Nothing, ProgressChange::Keep) && after == self
            } else {
                outcome == (Effect::Nothing, ProgressChange::Reset) && self.forgotten(
                    after,
                ) && after.controls.input_path == path
            },
            Message::FileDialogResult(None) => outcome == (Effect::Nothing, ProgressChange::Keep)
                && after == self,
            Message::RunExperiment => if self.running() {
                outcome == (Effect::Nothing, ProgressChange::Keep) && after == self
            } else if is_blank(self.controls.input_path@) {
                outcome == (Effect::Nothing, ProgressChange::Keep) && (after.status matches Status::Failed(reason) && reason@ == "Enter an image path to begin."@)
                    && self.with_status(after, after.status)
            } else if !self.controls.preview_size.valid()
                || !self.controls.rng_seed.valid() {
                outcome == (Effect::Nothing, ProgressChange::Keep) && (after.status matches Status::Failed(reason) && reason@
                    == "Correct the image size and seed before starting."@) && self.with_status(after, after.status)
            } else {
                (outcome.0 matches Effect::StartExperiment { input_path, preview_size, config }
                    && input_path@ == self.controls.input_path@ && preview_size == self.controls.preview_size.validated() && config == self.config)
                    && outcome.1 == ProgressChange::Reset && after.status
                    == Status::Running && !after.has_preview && after.viewer is None
                    && !after.viewer_open && after.controls == self.controls
                    && after.config == self.config
            },
            Message::ExperimentProgress => outcome == (if self.running() {
                (Effect::Nothing, ProgressChange::Raise)
            } else {
                (Effect::Nothing, ProgressChange::Keep)
            }) && after == self,
            Message::ExperimentFinished(result) => if !self.running() {
                outcome == (Effect::Nothing, ProgressChange::Keep) && after == self
            } else {
                match result {
                    Ok(()) => outcome == (Effect::Nothing, ProgressChange::Complete)
                        && after.status == Status::Complete && after.has_preview
                        && after.controls == self.controls && after.config
                        == self.config && after.viewer == self.viewer
                        && after.viewer_open == self.viewer_open,
                    Err(reason) => outcome == (Effect::Nothing, ProgressChange::Keep) && self.with_status(after, Status::Failed(reason)),
                }
            },
            Message::OpenImage(image) => if self.has_preview {
                &&& outcome.1 == ProgressChange::Keep
                &&& match self.viewer {
                    Some(shown) => {
                        let (model, action) = shown@.reopened(image).prepared();
                        &&& outcome.0 == Effect::Viewer(action)
                        &&& after.viewer matches Some(after) && after@ == model
                    },
                    None => outcome.0 == Effect::CreateViewer(image) && after.viewer is None,
                }
                &&& after.viewer_open
                &&& after.status == self.status
                &&& after.controls == self.controls
                &&& after.has_preview
                &&& after.config == self.config
            } else {
                outcome == (Effect::Nothing, ProgressChange::Keep) && after == self
            },
            Message::Viewer(viewer::Message::Close) => outcome == (
                Effect::Nothing,
                ProgressChange::Keep,
            ) && !after.viewer_open && after.viewer == self.viewer
                && after.status == self.status && after.controls == self.controls && after.has_preview == self.has_preview
                && after.config == self.config,
            Message::Viewer(request) => match self.viewer {
                Some(shown) if self.viewer_open || request is ImageAllocated
                    || request is SaveFinished => {
                    let (model, action) = shown@.updated(request);
                    &&& outcome == (Effect::Viewer(action), ProgressChange::Keep)
                    &&& after.viewer matches Some(after) && after@ == model
                    &&& after.viewer_open == self.viewer_open
                    &&& after.status == self.status
                    &&& after.controls == self.controls
                    &&& after.has_preview == self.has_preview
                    &&& after.config == self.config
                },
                _ => outcome == (Effect::Nothing, ProgressChange::Keep) && after
                    == self,
            },
            Message::Controls(edit) => if self.running() {
                outcome == (Effect::Nothing, ProgressChange::Keep) && after == self
            } else {
                match edit {
                    ControlsMessage::InputChanged(path) => outcome == (
                        Effect::Nothing,
                        ProgressChange::Reset,
                    ) && self.forgotten(after) && after.controls.input_path
                        == path,
                    _ => outcome == (Effect::Nothing, ProgressChange::Keep) && self.edited(
                        after,
                        edit,
                    ),
                }
            },
        }
    }

    /// Reacts to `message`. While an experiment runs, only closing the window,
    /// viewer messages, progress and the experiment's end are heeded; settings
    /// edits, new runs and file choices are ignored.
    pub fn update(&mut self, message: Message) -> (outcome: (Effect, ProgressChange))
        ensures
            old(self).updates(message, *final(self), outcome),
    {
        let running = self.is_running();
        match message {
            Message::CloseWindow => (Effect::CloseWindow, ProgressChange::Keep),
            Message::FocusNext => if running {
                (Effect::Nothing, ProgressChange::Keep)
            } else {
                (Effect::FocusNext, ProgressChange::Keep)
            },
            Message::FocusPrevious => if running {
                (Effect::Nothing, ProgressChange::Keep)
            } else {
                (Effect::FocusPrevious, ProgressChange::Keep)
            },
            Message::OpenFileDialog => if running {
                (Effect::Nothing, ProgressChange::Keep)
            } else {
                (Effect::OpenFileDialog, ProgressChange::Keep)
            },
            Message::FileDialogResult(Some(path)) => if running {
                (Effect::Nothing, ProgressChange::Keep)
            } else {
                self.forget(path);
                (Effect::Nothing, ProgressChange::Reset)
            },
            Message::FileDialogResult(None) => (Effect::Nothing, ProgressChange::Keep),
            Message::RunExperiment => if running {
                (Effect::Nothing, ProgressChange::Keep)
            } else if blank(self.controls.input_path.as_str()) {
                self.status = Status::Failed(String::from_str("Enter an image path to begin."));
                (Effect::Nothing, ProgressChange::Keep)
            } else if !self.controls.preview_size.is_valid() || !self.controls.rng_seed.is_valid() {
                self.status = Status::Failed(
                    String::from_str("Correct the image size and seed before starting."),
                );
                (Effect::Nothing, ProgressChange::Keep)
            } else {
                self.status = Status::Running;
                self.has_preview = false;
                self.viewer = None;
                self.viewer_open = false;
                let input_path = self.controls.input_path.clone();
                let preview_size = *self.controls.preview_size.get_validated();
                (
                    Effect::StartExperiment { input_path, preview_size, config: self.config },
                    ProgressChange::Reset,
                )
            },
            Message::ExperimentProgress => if running {
                (Effect::Nothing, ProgressChange::Raise)
            } else {
                (Effect::Nothing, ProgressChange::Keep)
            },
            Message::ExperimentFinished(result) => if !running {
                (Effect::Nothing, ProgressChange::Keep)
            } else {
                match result {
                    Ok(()) => {
                        self.has_preview = true;
                        self.status = Status::Complete;
                        (Effect::Nothing, ProgressChange::Complete)
                    },
                    Err(reason) => {
                        self.status = Status::Failed(reason);
                        (Effect::Nothing, ProgressChange::Keep)
                    },
                }
            },
            Message::OpenImage(image) => if self.has_preview {
                self.viewer_open = true;
                match self.viewer {
                    Some(ref mut shown) => {
                        shown.open(image);
                        let action = shown.prepare();
                        (Effect::Viewer(action), ProgressChange::Keep)
                    },
                    None => (Effect::CreateViewer(image), ProgressChange::Keep),
                }
            } else {
                (Effect::Nothing, ProgressChange::Keep)
            },
            Message::Viewer(viewer::Message::Close) => {
                self.viewer_open = false;
                (Effect::Nothing, ProgressChange::Keep)
            },
            Message::Viewer(request) => {
                let completion = match request {
                    viewer::Message::ImageAllocated(..) | viewer::Message::SaveFinished(..) => true,
                    _ => false,
                };
                if self.viewer_open || completion {
                    match self.viewer {
                        Some(ref mut shown) => {
                            let action = shown.update(request);
                            (Effect::Viewer(action), ProgressChange::Keep)
                        },
                        None => (Effect::Nothing, ProgressChange::Keep),
                    }
                } else {
                    (Effect::Nothing, ProgressChange::Keep)
                }
            },
            Message::Controls(edit) => if running {
                (Effect::Nothing, ProgressChange::Keep)
            } else {
                self.update_controls(edit)
            },
        }
    }

    fn forget(&mut self, path: String)
        ensures
            old(self).forgotten(*final(self)),
            final(self).controls.input_path == path,
    {
        self.controls.input_path = path;
        self.status = Status::Ready;
        self.has_preview = false;
        self.viewer = None;
        self.viewer_open = false;
    }

    fn update_controls(&mut self, edit: ControlsMessage) -> (outcome: (Effect, ProgressChange))
        ensures
            match edit {
                ControlsMessage::InputChanged(path) => outcome == (
                    Effect::Nothing,
                    ProgressChange::Reset,
                ) && old(self).forgotten(*final(self)) && final(self).controls.input_path == path,
                _ => outcome == (Effect::Nothing, ProgressChange::Keep) && old(self).edited(
                    *final(self),
                    edit,
                ),
            },
    {
        match edit {
            ControlsMessage::InputChanged(path) => {
                self.forget(path);
                (Effect::Nothing, ProgressChange::Reset)
            },
            ControlsMessage::PreviewSizeChanged(size) => {
                let shown = size.as_str();
                let result = self.controls.preview_size.update(shown);
                proof {
                    assert(old(self).controls.preview_size.is_update(
                        self.controls.preview_size,
                        shown,
                        result,
                    ));
                }
                (Effect::Nothing, ProgressChange::Keep)
            },
            ControlsMessage::RngSeedChanged(seed) => {
                let shown = seed.as_str();
                let result = self.controls.rng_seed.update(shown);
                if let Ok(value) = result {
                    self.config.seed = value;
                }
                proof {
                    assert(old(self).controls.rng_seed.is_update(self.controls.rng_seed, shown, result));
                }
                (Effect::Nothing, ProgressChange::Keep)
            },
            ControlsMessage::GenerationsChanged(generations) => {
                let shown = generations.as_str();
                let result = self.controls.generations.update(shown);
                if let Ok(value) = result {
                    self.config.generations = value;
                }
                proof {
                    assert(old(self).controls.generations.is_update(
                        self.controls.generations,
                        shown,
                        result,
                    ));
                }
                (Effect::Nothing, ProgressChange::Keep)
            },
            ControlsMessage::PopulationSizeChanged(population) => {
                let shown = population.as_str();
                let result = self.controls.population_size.update(shown);
                if let Ok(value) = result {
                    self.config.population = value;
                }
                proof {
                    assert(old(self).controls.population_size.is_update(
                        self.controls.population_size,
                        shown,
                        result,
                    ));
                }
                (Effect::Nothing, ProgressChange::Keep)
            },
            ControlsMessage::LocalPassesChanged(passes) => {
                let shown = passes.as_str();
                let result = self.controls.local_passes.update(shown);
                if let Ok(value) = result {
                    self.config.local_passes = value;
                }
                proof {
                    assert(old(self).controls.local_passes.is_update(
                        self.controls.local_passes,
                        shown,
                        result,
                    ));
                }
                (Effect::Nothing, ProgressChange::Keep)
            },
        }
    }

    /// The run button is enabled: nothing runs, an image path is given, and
    /// the size and seed fields hold valid values.
    pub open spec fn runnable(&self) -> bool {
        &&& !self.running()
        &&& !is_blank(self.controls.input_path@)
        &&& self.controls.preview_size.valid()
        &&& self.controls.rng_seed.valid()
    }

    /// Whether the run button is enabled.
    pub fn can_run(&self) -> (enabled: bool)
        ensures
            enabled == self.runnable(),
    {
        !self.is_running() && !blank(self.controls.input_path.as_str())
            && self.controls.preview_size.is_valid() && self.controls.rng_seed.is_valid()
    }

    /// The status line under the settings.
    pub fn status_text(&self) -> (text: String)
        ensures
            text@ == match self.status {
                Status::Ready => "Choose an image to shuffle and restore."@,
                Status::Running => "Restoring the shuffled image…"@,
                Status::Complete => "Restoration complete."@,
                Status::Failed(error) => "Could not complete the experiment: "@ + error@,
            },
    {
        match &self.status {
            Status::Ready => String::from_str("Choose an image to shuffle and restore."),
            Status::Running => String::from_str("Restoring the shuffled image…"),
            Status::Complete => String::from_str("Restoration complete."),
            Status::Failed(error) => String::from_str("Could not complete the experiment: ").concat(
                error.as_str(),
            ),
        }
    }

    /// The viewer's shortcuts while it is on screen: Escape closes it and
    /// Space, when not repeated, swaps the original and the result.
    pub fn viewer_shortcut(&self, key: &Key, repeat: bool) -> (message: Option<Message>)
        ensures
            message == (if !self.viewer_open {
                None
            } else {
                match *key {
                    Key::Escape => Some(Message::Viewer(viewer::Message::Close)),
                    Key::Space => if repeat {
                        None
                    } else {
                        Some(Message::Viewer(viewer::Message::Swap))
                    },
                    _ => None,
                }
            }),
    {
        if !self.viewer_open {
            return None;
        }
        match key {
            Key::Escape => Some(Message::Viewer(viewer::Message::Close)),
            Key::Space => if repeat {
                None
            } else {
                Some(Message::Viewer(viewer::Message::Swap))
            },
            _ => None,
        }
    }

    /// Builds the viewer from the display handles of the experiment's images,
    /// opened on `image`, and asks for its first frame.
    pub fn attach_viewer(&mut self, base: BaseHandles, image: ImageKind) -> (action: viewer::Action)
        ensures
            final(self).viewer matches Some(shown) && shown@ == opened_on(base, image).prepared().0,
            action == opened_on(base, image).prepared().1,
            final(self).viewer_open == old(self).viewer_open,
            final(self).status == old(self).status,
            final(self).controls == old(self).controls,
            final(self).has_preview == old(self).has_preview,
            final(self).config == old(self).config,
    {
        let mut shown = Viewer::new(base, image);
        let action = shown.prepare();
        self.viewer = Some(shown);
        action
    }

    /// The viewer, while it is on screen.
    pub fn viewer(&self) -> (shown: Option<&Viewer>)
        ensures
            match shown {
                Some(shown) => self.viewer_open && self.viewer == Some(*shown),
                None => !self.viewer_open || self.viewer is None,
            },
    {
        if self.viewer_open {
            self.viewer.as_ref()
        } else {
            None
        }
    }
}

/// The run button is enabled exactly when running the experiment would start
/// it.
pub proof fn lemma_run_button_matches_run<P, S, G, N, L>(
    before: App<P, S, G, N, L>,
    after: App<P, S, G, N, L>,
    outcome: (Effect, ProgressChange),
) where
    P: Fn(&str) -> Result<u32, String>,
    S: Fn(&str) -> Result<u64, String>,
    G: Fn(&str) -> Result<usize, String>,
    N: Fn(&str) -> Result<usize, String>,
    L: Fn(&str) -> Result<usize, String>,

    requires
        App::updates(before, Message::RunExperiment, after, outcome),
    ensures
        before.runnable() <==> outcome.0 is StartExperiment,
{
}

/// While an experiment runs, settings edits, new runs, file choices and focus
/// moves change nothing and ask for nothing.
pub proof fn lemma_running_ignores_requests<P, S, G, N, L>(
    before: App<P, S, G, N, L>,
    message: Message,
    after: App<P, S, G, N, L>,
    outcome: (Effect, ProgressChange),
) where
    P: Fn(&str) -> Result<u32, String>,
    S: Fn(&str) -> Result<u64, String>,
    G: Fn(&str) -> Result<usize, String>,
    N: Fn(&str) -> Result<usize, String>,
    L: Fn(&str) -> Result<usize, String>,

    requires
        before.running(),
        message is Controls || message is RunExperiment || message is OpenFileDialog
            || message is FileDialogResult || message is FocusNext || message is FocusPrevious,
        App::updates(before, message, after, outcome),
    ensures
        after == before,
        outcome == (Effect::Nothing, ProgressChange::Keep),
{
}

/// Choosing a file in the dialog, when nothing runs, behaves exactly as
/// typing its path: the path becomes the input, the status is ready again,
/// the old result and viewer are dropped, the progress bar resets, and the
/// settings fields and search settings stay.
pub proof fn lemma_chosen_file_becomes_the_input<P, S, G, N, L>(
    before: App<P, S, G, N, L>,
    path: String,
    after: App<P, S, G, N, L>,
    outcome: (Effect, ProgressChange),
) where
    P: Fn(&str) -> Result<u32, String>,
    S: Fn(&str) -> Result<u64, String>,
    G: Fn(&str) -> Result<usize, String>,
    N: Fn(&str) -> Result<usize, String>,
    L: Fn(&str) -> Result<usize, String>,

    requires
        !before.running(),
    ensures
        App::updates(before, Message::FileDialogResult(Some(path)), after, outcome) ==> {
            &&& after.controls.input_path == path
            &&& outcome == (Effect::Nothing, ProgressChange::Reset)
            &&& after.status == Status::Ready
            &&& !after.has_preview
            &&& after.viewer is None
            &&& !after.viewer_open
            &&& after.config == before.config
            &&& after.controls.preview_size == before.controls.preview_size
            &&& after.controls.rng_seed == before.controls.rng_seed
        },
        App::updates(before, Message::FileDialogResult(Some(path)), after, outcome)
            <==> App::updates(
            before,
            Message::Controls(ControlsMessage::InputChanged(path)),
            after,
            outcome,
        ),
{
}

} // verus!
