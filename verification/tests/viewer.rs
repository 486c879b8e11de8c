use std::collections::HashMap;

use descramble::gui::comparison::{transform, Comparison, Transform};
use descramble::gui::viewer::{
    same_canvas, split_column, Action, BaseHandles, ImageKind, Message, Mode, Viewer,
};
use descramble::raster::{Image, Rgba};

fn image_from_fn(width: u32, height: u32, pixel: impl Fn(u32, u32) -> Rgba) -> Image {
    let rows = (0..height)
        .map(|y| (0..width).map(|x| pixel(x, y)).collect())
        .collect();
    Image::from_rows(width, height, rows).unwrap()
}

fn flip_horizontal(image: &Image) -> Image {
    transform(image, Transform::FlipHorizontal)
}

/// The experiment's three images.
struct Run {
    original: Image,
    scrambled: Image,
    restored: Image,
}

fn fixture() -> Run {
    let original = image_from_fn(3, 2, |x, y| [(x * 50 + y * 10) as u8, 40, 80, 255]);
    let scrambled = image_from_fn(3, 2, |x, y| [((2 - x) * 50 + (1 - y) * 10) as u8, 40, 80, 255]);
    // A known reflection, to test the viewer independently of search quality.
    let restored = flip_horizontal(&original);
    Run {
        original,
        scrambled,
        restored,
    }
}

/// What a composite frame was built from.
#[derive(Debug, Clone, Copy, PartialEq, Eq)]
enum Composite {
    Blend(u32),
    Wipe(u32),
    Difference(u32),
}

/// The surrounding event loop: it builds pixels, hands out handle ids, and
/// performs the viewer's actions.
struct Session {
    run: Run,
    restored: Image,
    comparison: Comparison,
    frames: HashMap<u64, Image>,
    composites: HashMap<u64, Composite>,
    next_handle: u64,
    viewer: Viewer,
}

impl Session {
    fn new(run: Run, image: ImageKind) -> Self {
        let restored = run.restored.clone();
        let comparison = Comparison::new(&run.original, &restored);
        let mut session = Session {
            restored,
            comparison,
            frames: HashMap::new(),
            composites: HashMap::new(),
            next_handle: 0,
            viewer: Viewer::new(
                BaseHandles {
                    original: 0,
                    restored: 0,
                    shuffled: 0,
                },
                image,
            ),
            run,
        };
        let base = BaseHandles {
            original: session.handle(session.comparison.original.clone()),
            restored: session.handle(session.comparison.restored.clone()),
            shuffled: session.handle(session.run.scrambled.clone()),
        };
        session.viewer = Viewer::new(base, image);
        session
    }

    fn handle(&mut self, image: Image) -> u64 {
        self.next_handle += 1;
        self.frames.insert(self.next_handle, image);
        self.next_handle
    }

    fn update(&mut self, message: Message) -> Action {
        let action = self.viewer.update(message);
        self.perform(action)
    }

    fn perform(&mut self, action: Action) -> Action {
        match action {
            Action::Render => {
                let (image, composite) = match self.viewer.mode {
                    Mode::Wipe => {
                        let column =
                            split_column(self.comparison.original.width, self.viewer.divider);
                        (
                            self.comparison.wipe(column),
                            Composite::Wipe(self.viewer.divider),
                        )
                    }
                    Mode::Difference => (
                        self.comparison.difference(self.viewer.gain),
                        Composite::Difference(self.viewer.gain),
                    ),
                    _ => (
                        self.comparison.original.clone(),
                        Composite::Blend(self.viewer.opacity),
                    ),
                };
                let handle = self.handle(image);
                self.composites.insert(handle, composite);
                let next = self.viewer.show(handle);
                self.perform(next)
            }
            Action::Realign(operation) => {
                self.restored = match operation {
                    Some(operation) => transform(&self.restored, operation),
                    None => self.run.restored.clone(),
                };
                let comparison = Comparison::new(&self.run.original, &self.restored);
                let original = if same_canvas(&self.comparison, &comparison) {
                    None
                } else {
                    Some(self.handle(comparison.original.clone()))
                };
                let restored = self.handle(comparison.restored.clone());
                self.comparison = comparison;
                let next = self.viewer.realigned(original, restored);
                self.perform(next)
            }
            other => other,
        }
    }

    fn requested_pixels(&self) -> &Image {
        &self.frames[&self.viewer.requested]
    }
}

#[test]
fn alignment_corrects_reflections_without_changing_source_or_report() {
    let run = fixture();
    let saved_result = run.restored.clone();
    let saved_original = run.original.clone();
    let mut session = Session::new(run, ImageKind::Restored);
    assert_eq!(session.comparison.stats.different_pixels, 4);

    let _task = session.update(Message::Transform(Transform::FlipHorizontal));
    assert_eq!(session.comparison.stats.different_pixels, 0);
    session.viewer.open(ImageKind::Original);
    let _task = session.update(Message::Swap);
    assert_eq!(session.viewer.mode, Mode::Restored);
    assert_eq!(session.restored, session.run.original);

    let _task = session.update(Message::Transform(Transform::RotateRight));
    assert_eq!(
        (session.restored.width, session.restored.height),
        (2, 3)
    );
    assert!(session.comparison.stats.size_mismatch);

    let _task = session.update(Message::ResetAlignment);
    assert_eq!(session.restored, saved_result);
    assert_eq!(session.run.restored, saved_result);
    assert_eq!(session.run.original, saved_original);
}

#[test]
fn modes_show_expected_pixels_and_fit_preserves_comparison_settings() {
    let run = fixture();
    let original = run.original.clone();
    let restored = run.restored.clone();
    let mut session = Session::new(run, ImageKind::Shuffled);
    assert_eq!(session.viewer.requested, session.viewer.base.shuffled);

    for (mode, message, expected) in [
        (Mode::Blend, Message::BlendChanged(0), Composite::Blend(0)),
        (Mode::Blend, Message::BlendChanged(100), Composite::Blend(100)),
        (Mode::Wipe, Message::DividerChanged(0), Composite::Wipe(0)),
        (Mode::Wipe, Message::DividerChanged(1000), Composite::Wipe(1000)),
    ] {
        let _task = session.update(Message::SelectMode(mode));
        let _task = session.update(message);
        assert_eq!(session.composites[&session.viewer.requested], expected);
    }

    // The wipe's extremes show one whole image each.
    let _task = session.update(Message::DividerChanged(0));
    assert_eq!(session.requested_pixels(), &restored);
    let _task = session.update(Message::DividerChanged(1000));
    assert_eq!(session.requested_pixels(), &original);

    let displayed = session.viewer.requested;
    let previous_reset = session.viewer.reset_id;
    let _task = session.update(Message::Fit);
    assert_eq!(session.viewer.reset_id, previous_reset + 1);
    assert_eq!(session.viewer.requested, displayed);
    assert_eq!(session.viewer.mode, Mode::Wipe);
    assert_eq!(session.viewer.divider, 1000);
}

#[test]
fn rapid_changes_coalesce_and_stale_uploads_cannot_replace_the_latest_request() {
    let mut session = Session::new(fixture(), ImageKind::Original);
    let _initial_upload = session.viewer.prepare();
    let initial = session.viewer.loading.unwrap().handle;
    let _mode = session.update(Message::SelectMode(Mode::Blend));
    let _opacity = session.update(Message::BlendChanged(75));
    let latest = session.viewer.requested;
    assert_ne!(initial, latest);
    assert_eq!(
        session.viewer.loading.map(|pending| pending.handle),
        Some(initial)
    );

    // Even if an obsolete upload fails, the newest request must proceed.
    let _completion =
        session.update(Message::ImageAllocated(initial, Err("out of memory".into())));
    assert_eq!(
        session.viewer.loading.map(|pending| pending.handle),
        Some(latest)
    );
    assert!(session.viewer.load_error.is_none());

    let _stale = session.update(Message::ImageAllocated(initial, Err("out of memory".into())));
    assert_eq!(
        session.viewer.loading.map(|pending| pending.handle),
        Some(latest)
    );
    assert!(session.viewer.load_error.is_none());

    // A failed current upload must stop, report the error, and allow retry.
    let _failure = session.update(Message::ImageAllocated(latest, Err("out of memory".into())));
    assert!(session.viewer.loading.is_none());
    assert!(session.viewer.load_error.is_some());

    let _retry = session.update(Message::SelectMode(Mode::Blend));
    assert_eq!(
        session.viewer.loading.map(|pending| pending.handle),
        Some(session.viewer.requested)
    );
    assert!(session.viewer.load_error.is_none());
}

#[test]
fn unchanged_mode_and_alignment_bounds_reuse_image_handles() {
    let mut session = Session::new(fixture(), ImageKind::Original);
    let original = session.viewer.base.original;
    let _flip = session.update(Message::Transform(Transform::FlipHorizontal));
    assert_eq!(session.viewer.base.original, original);

    let _blend = session.update(Message::SelectMode(Mode::Blend));
    let blend = session.viewer.requested;
    let _unchanged = session.update(Message::SelectMode(Mode::Blend));
    assert_eq!(session.viewer.requested, blend);

    let _rotate = session.update(Message::Transform(Transform::RotateRight));
    assert_ne!(session.viewer.base.original, original);
}

#[test]
fn every_mode_exports_its_snapshot_even_after_controls_change() {
    let run = fixture();
    let wipe = image_from_fn(3, 2, |x, y| {
        let red = if x == 1 { 50 } else { 0 };

        [(red + y * 10) as u8, 40, 80, 255]
    });
    let difference = image_from_fn(3, 2, |x, _| {
        let error = if x == 1 { 0 } else { 200 };

        [error, error, error, 255]
    });

    for (mode, expected) in [
        (Mode::Original, Some(run.original.clone())),
        (Mode::Restored, Some(run.restored.clone())),
        (Mode::Shuffled, Some(run.scrambled.clone())),
        (Mode::Blend, None),
        (Mode::Wipe, Some(wipe)),
        (Mode::Difference, Some(difference)),
    ] {
        let mut session = Session::new(fixture(), ImageKind::Original);
        let _mode = session.update(Message::SelectMode(mode));

        if mode == Mode::Difference {
            let _gain = session.update(Message::GainChanged(2));
        }

        let snapshot = session.viewer.requested;
        let pixels = session.frames[&snapshot].clone();
        let _change_mode = session.update(Message::SelectMode(Mode::Restored));
        let _change_alignment = session.update(Message::Transform(Transform::RotateRight));
        assert_eq!(session.frames[&snapshot], pixels, "{mode:?}");
        match expected {
            Some(expected) => assert_eq!(pixels, expected, "{mode:?}"),
            None => assert_eq!(session.composites[&snapshot], Composite::Blend(50)),
        }
    }

    let mut session = Session::new(run, ImageKind::Restored);
    let _flip = session.update(Message::Transform(Transform::FlipHorizontal));
    let _rotate = session.update(Message::Transform(Transform::RotateRight));
    let saved = session.requested_pixels().clone();
    assert_eq!((saved.width, saved.height), (3, 3));
    assert_eq!(saved, session.comparison.restored);
}

#[test]
fn save_completion_handles_cancellation_errors_and_stale_requests() {
    let mut session = Session::new(fixture(), ImageKind::Original);
    let _not_ready = session.update(Message::Save);
    assert!(session.viewer.saving.is_none());

    let snapshot = session.viewer.requested;
    session.viewer.saving = Some(snapshot);
    let _duplicate = session.update(Message::Save);
    assert_eq!(session.viewer.saving, Some(snapshot));

    let unrelated = session.handle(image_from_fn(1, 1, |_, _| [0, 0, 0, 0]));
    let _stale = session.update(Message::SaveFinished(unrelated, Err("old failure".into())));
    assert_eq!(session.viewer.saving, Some(snapshot));
    assert!(session.viewer.save_status.is_none());

    let _cancel = session.update(Message::SaveFinished(snapshot, Ok(None)));
    assert!(session.viewer.saving.is_none());
    assert_eq!(session.viewer.save_status.as_deref(), Some("Save canceled."));

    session.viewer.saving = Some(snapshot);
    let _failure = session.update(Message::SaveFinished(snapshot, Err("disk full".into())));
    assert!(session.viewer.saving.is_none());
    assert_eq!(
        session.viewer.save_status.as_deref(),
        Some("Save failed: disk full")
    );

    session.viewer.saving = Some(snapshot);
    let _success = session.update(Message::SaveFinished(snapshot, Ok(Some("image.png".into()))));
    assert!(session.viewer.saving.is_none());
    assert_eq!(
        session.viewer.save_status.as_deref(),
        Some("Saved image.png")
    );
}

#[test]
fn save_exports_the_displayed_frame_once_it_is_uploaded() {
    let mut session = Session::new(fixture(), ImageKind::Restored);
    let upload = session.viewer.prepare();
    let restored = session.viewer.base.restored;
    assert_eq!(upload, Action::Upload(restored));
    assert_eq!(session.update(Message::Save), Action::Nothing);

    assert_eq!(
        session.update(Message::ImageAllocated(restored, Ok(()))),
        Action::Nothing
    );
    assert_eq!(session.viewer.presented.unwrap().handle, restored);
    assert_eq!(session.viewer.retained, vec![restored]);

    // A new mode waits for its own upload; the displayed frame is what saves.
    let _blend = session.update(Message::SelectMode(Mode::Blend));
    assert_eq!(
        session.update(Message::Save),
        Action::Export {
            handle: restored,
            mode: Mode::Restored
        }
    );
    assert_eq!(session.update(Message::Save), Action::Nothing);

    // Going back to an uploaded base image needs no upload.
    let _back = session.update(Message::SelectMode(Mode::Restored));
    assert_eq!(session.viewer.presented.unwrap().handle, restored);
}

#[test]
fn divider_columns_round_down_and_stay_on_the_canvas() {
    assert_eq!(split_column(3, 500), 1);
    assert_eq!(split_column(3, 0), 0);
    assert_eq!(split_column(3, 1000), 3);
    assert_eq!(split_column(3, 5000), 3);
    assert_eq!(split_column(999, 999), 998);
    assert_eq!(split_column(u32::MAX, 1000), u32::MAX);
}

#[test]
fn sliders_are_clamped_to_their_ranges() {
    let mut session = Session::new(fixture(), ImageKind::Original);
    let _ = session.update(Message::GainChanged(0));
    assert_eq!(session.viewer.gain, 1);
    let _ = session.update(Message::GainChanged(40));
    assert_eq!(session.viewer.gain, 16);
    let _ = session.update(Message::BlendChanged(250));
    assert_eq!(session.viewer.opacity, 100);
    let _ = session.update(Message::DividerChanged(1001));
    assert_eq!(session.viewer.divider, 1000);
    assert_eq!(session.viewer.mode, Mode::Original);
}

#[test]
fn fit_moves_the_displayed_frame_to_the_new_navigation_generation() {
    let mut session = Session::new(fixture(), ImageKind::Original);
    let original = session.viewer.base.original;
    let _ = session.viewer.prepare();
    let _ = session.update(Message::ImageAllocated(original, Ok(())));
    let before = session.viewer.reset_id;
    assert_eq!(session.update(Message::Fit), Action::Nothing);
    assert_eq!(session.viewer.presented.unwrap().reset_id, before + 1);
    assert_eq!(session.viewer.reset_id, before + 1);
}

#[test]
fn the_save_button_follows_the_display_and_the_running_save() {
    let mut session = Session::new(fixture(), ImageKind::Original);
    assert!(!session.viewer.can_save());
    assert_eq!(
        session.viewer.save_line(),
        "Save exports the displayed image as PNG at its current pixel resolution."
    );
    let original = session.viewer.base.original;
    let _ = session.viewer.prepare();
    let _ = session.update(Message::ImageAllocated(original, Ok(())));
    assert!(session.viewer.can_save());
    let _ = session.update(Message::Save);
    assert!(!session.viewer.can_save());
    assert_eq!(session.viewer.save_line(), "Saving image…");
    let _ = session.update(Message::SaveFinished(original, Ok(Some("original.png".into()))));
    assert!(session.viewer.can_save());
    assert_eq!(session.viewer.save_line(), "Saved original.png");
}
