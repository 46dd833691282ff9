use vstd::prelude::*;

use crate::notification::ImageSource;

verus! {

/// Durations of a pop-up's exit timeline, in milliseconds, as the theme gives them.
#[derive(Debug, Clone, Copy)]
pub struct WidgetTimings {
    /// How long the pop-up stays fully shown before it starts to fade.
    pub notification_duration: u32,
    /// How long the fade-out takes.
    pub disappear_duration: u32,
}

impl WidgetTimings {
    /// Length of the whole exit timeline.
    pub open spec fn total(self) -> int {
        self.notification_duration + self.disappear_duration
    }
}

/// What a pop-up shows.
#[derive(Debug)]
pub struct WidgetContent {
    pub app_name: String,
    pub title: String,
    pub body: String,
    /// The name under which the small icon is looked up; none for the generic icon.
    pub icon_name: Option<String>,
    pub image: ImageSource,
}

/// Where a pop-up stands on its exit timeline.
#[derive(Debug, Clone, Copy, PartialEq, Eq, Structural)]
pub enum WidgetPhase {
    /// Fully shown, waiting for the display duration to run out.
    Displaying,
    /// Fading and blurring out.
    Exiting,
    /// The timeline has run out: the pop-up is to be closed as expired.
    Finished,
}

/// The phase a pop-up is in after `elapsed` milliseconds of its timeline.
pub open spec fn phase_at(elapsed: int, t: WidgetTimings) -> WidgetPhase {
    if elapsed < t.notification_duration {
        WidgetPhase::Displaying
    } else if elapsed < t.total() {
        WidgetPhase::Exiting
    } else {
        WidgetPhase::Finished
    }
}

/// The state of one visible pop-up.
#[derive(Debug)]
pub struct NotificationWidget {
    pub notification_id: u32,
    pub content: WidgetContent,
    pub width: u32,
    pub height: u32,
    /// Vertical position the pop-up is moved to, from the top of the stack.
    pub offset: u32,
    /// Milliseconds of the exit timeline that have run.
    pub elapsed: u64,
    /// The freeze key is held: the timeline is paused and the action overlay shown.
    pub frozen: bool,
    /// The cursor is over the pop-up.
    pub hovered: bool,
}

impl NotificationWidget {
    pub fn new(notification_id: u32, content: WidgetContent) -> (r: NotificationWidget)
        ensures
            r.notification_id == notification_id,
            r.content == content,
            r.width == 0,
            r.height == 0,
            r.offset == 0,
            r.elapsed == 0,
            !r.frozen,
            !r.hovered,
    {
        NotificationWidget {
            notification_id,
            content,
            width: 0,
            height: 0,
            offset: 0,
            elapsed: 0,
            frozen: false,
            hovered: false,
        }
    }

    pub open spec fn phase(&self, t: WidgetTimings) -> WidgetPhase {
        phase_at(self.elapsed as int, t)
    }

    /// Phase of this pop-up on its exit timeline.
    pub fn current_phase(&self, t: WidgetTimings) -> (r: WidgetPhase)
        ensures
            r == self.phase(t),
    {
        let total: u64 = t.notification_duration as u64 + t.disappear_duration as u64;
        if self.elapsed < t.notification_duration as u64 {
            WidgetPhase::Displaying
        } else if self.elapsed < total {
            WidgetPhase::Exiting
        } else {
            WidgetPhase::Finished
        }
    }

    /// Shows new content.
    pub fn set_content(&mut self, content: WidgetContent)
        ensures
            *final(self) == (NotificationWidget { content, ..*old(self) }),
    {
        self.content = content;
    }

    /// Restarts the exit timeline from its beginning.
    pub fn reset_timer(&mut self)
        ensures
            *final(self) == (NotificationWidget { elapsed: 0, ..*old(self) }),
    {
        self.elapsed = 0;
    }

    /// Pauses the exit timeline and shows the action overlay.
    pub fn freeze(&mut self)
        ensures
            *final(self) == (NotificationWidget { frozen: true, ..*old(self) }),
    {
        self.frozen = true;
    }

    /// Hides the action overlay and lets the exit timeline run on.
    pub fn unfreeze(&mut self)
        ensures
            *final(self) == (NotificationWidget { frozen: false, ..*old(self) }),
    {
        self.frozen = false;
    }

    pub fn hover(&mut self)
        ensures
            *final(self) == (NotificationWidget { hovered: true, ..*old(self) }),
    {
        self.hovered = true;
    }

    pub fn unhover(&mut self)
        ensures
            *final(self) == (NotificationWidget { hovered: false, ..*old(self) }),
    {
        self.hovered = false;
    }

    /// Whether the point (`x`, `y`), relative to the top of the stack, lies on this pop-up.
    pub open spec fn contains_point(&self, x: int, y: int) -> bool {
        0 <= x < self.width && self.offset <= y < self.offset + self.height
    }

    /// Periodic poll: the freeze key freezes the pop-up, the cursor hovers it.
    /// Hovering does not pause the timeline.
    pub fn check_hover(&mut self, freeze_key_held: bool, cursor_x: i64, cursor_y: i64)
        ensures
            *final(self) == (NotificationWidget {
                frozen: freeze_key_held,
                hovered: old(self).contains_point(cursor_x as int, cursor_y as int),
                ..*old(self)
            }),
    {
        if freeze_key_held {
            self.freeze();
        } else {
            self.unfreeze();
        }
        let inside = 0 <= cursor_x && cursor_x < self.width as i64 && self.offset as i64 <= cursor_y
            && cursor_y < self.offset as i64 + self.height as i64;
        if inside {
            self.hover();
        } else {
            self.unhover();
        }
    }

    /// Moves the pop-up to the vertical position `offset`.
    pub fn animate_entry(&mut self, offset: u32)
        ensures
            *final(self) == (NotificationWidget { offset, ..*old(self) }),
    {
        self.offset = offset;
    }

    /// The timeline position after `ms` more milliseconds.
    pub open spec fn advanced_elapsed(&self, ms: u32, t: WidgetTimings) -> u64 {
        if self.frozen {
            self.elapsed
        } else if self.elapsed + ms >= t.total() {
            if self.elapsed >= t.total() { self.elapsed } else { t.total() as u64 }
        } else {
            (self.elapsed + ms) as u64
        }
    }

    /// Lets `ms` milliseconds of the exit timeline run, unless the pop-up is frozen.
    /// The timeline stops at its end.
    pub fn advance(&mut self, ms: u32, t: WidgetTimings)
        ensures
            *final(self) == (NotificationWidget {
                elapsed: old(self).advanced_elapsed(ms, t),
                ..*old(self)
            }),
    {
        if !self.frozen {
            let total: u64 = t.notification_duration as u64 + t.disappear_duration as u64;
            if self.elapsed >= total {
            } else if total - self.elapsed <= ms as u64 {
                self.elapsed = total;
            } else {
                self.elapsed = self.elapsed + ms as u64;
            }
        }
    }
}

} // verus!
