//! Orchestration state: the current style index and the elapsed time.

use vstd::prelude::*;

use vstd::string::StringExecFns;

verus! {

/// Current style selection and accumulated time. The style index wraps in
/// both directions over the eight styles; time only grows.
pub struct VisualizerState {
    /// Current style index, always below 8.
    pub current_style: usize,
    /// Accumulated elapsed time in milliseconds.
    pub time_ms: u32,
}

impl VisualizerState {
    /// Start at the given style (out-of-range selections fall back to the
    /// first style), with no time elapsed.
    pub fn new(initial_style: usize) -> (s: VisualizerState)
        ensures
            s.current_style == if initial_style < 8 {
                initial_style as int
            } else {
                0int
            },
            s.time_ms == 0,
    {
        VisualizerState {
            current_style: if initial_style < 8 {
                initial_style
            } else {
                0
            },
            time_ms: 0,
        }
    }

    /// Advance the clock by `dt_ms` milliseconds, saturating at the
    /// largest representable time.
    pub fn update(&mut self, dt_ms: u32)
        ensures
            final(self).current_style == old(self).current_style,
            final(self).time_ms == if old(self).time_ms + dt_ms <= u32::MAX {
                old(self).time_ms + dt_ms
            } else {
                u32::MAX as int
            },
            final(self).time_ms >= old(self).time_ms,
    {
        self.time_ms = if self.time_ms <= u32::MAX - dt_ms {
            self.time_ms + dt_ms
        } else {
            u32::MAX
        };
    }

    /// Step to the next style, wrapping after the last.
    pub fn next_style(&mut self)
        requires
            old(self).current_style < 8,
        ensures
            final(self).time_ms == old(self).time_ms,
            final(self).current_style == (old(self).current_style + 1) % 8,
            final(self).current_style < 8,
    {
        self.current_style = (self.current_style + 1) % 8;
    }

    /// Step to the previous style, wrapping before the first.
    pub fn prev_style(&mut self)
        requires
            old(self).current_style < 8,
        ensures
            final(self).time_ms == old(self).time_ms,
            final(self).current_style == if old(self).current_style == 0 {
                7int
            } else {
                old(self).current_style - 1
            },
            final(self).current_style < 8,
    {
        if self.current_style == 0 {
            self.current_style = 7;
        } else {
            self.current_style = self.current_style - 1;
        }
    }

    /// The display name of the current style.
    pub fn current_style_name(&self) -> (name: String) {
        style_name(self.current_style)
    }
}

/// The display name of a style index; indexes past the last style read as
/// the first.
pub fn style_name(style: usize) -> (name: String) {
    let s: &str = if style == 1 {
        "Mirrored"
    } else if style == 2 {
        "Wave"
    } else if style == 3 {
        "Dots"
    } else if style == 4 {
        "Blocks"
    } else if style == 5 {
        "Oscilloscope"
    } else if style == 6 {
        "Spectrogram"
    } else if style == 7 {
        "Radial"
    } else {
        "Classic Bars"
    };
    String::from_str(s)
}

/// Changes received over the control channel that the render loop still
/// has to apply.
pub struct PendingChanges {
    /// Layer changed; requires surface recreation.
    pub layer_change: bool,
    /// Anchor, margin or size changed; can be applied dynamically.
    pub surface_update: bool,
    /// Drag mode changed; update keyboard interactivity.
    pub drag_changed: bool,
    /// State changed; save to the configuration file.
    pub save_config: bool,
}

impl Default for PendingChanges {
    /// No changes pending.
    fn default() -> (r: PendingChanges)
        ensures
            !r.layer_change,
            !r.surface_update,
            !r.drag_changed,
            !r.save_config,
    {
        PendingChanges {
            layer_change: false,
            surface_update: false,
            drag_changed: false,
            save_config: false,
        }
    }
}

/// A text-related control action.
pub enum TextAction {
    /// Set the text position.
    Position { value: String },
    /// Set the font style.
    Font { value: String },
    /// Set the text animation.
    Animation { value: String },
    /// Toggle text visibility.
    Toggle,
}

} // verus!
