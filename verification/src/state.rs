//! The in-memory registry of window state: the single source of truth
//! for the pin flag, the monitored list, the auto-hide delay, the
//! monitoring snapshot and the theme. The surrounding application keeps
//! one value of it behind its lock and mirrors changes to disk.

use vstd::prelude::*;

use crate::config::{ConfigView, WindowConfig};
use crate::dec::dec_digits;
use crate::text::{append_str, clone_string_vec, string_from_chars};

verus! {

/// All shared mutable state of the process.
pub struct AppState {
    pub is_pinned: bool,
    pub monitored_windows: Vec<String>,
    pub auto_hide_delay: u64,
    pub last_seen_windows: Vec<String>,
    pub monitoring_active: bool,
    pub dark_mode: bool,
}

/// Ghost image of the registry.
pub ghost struct StateView {
    pub is_pinned: bool,
    pub monitored_windows: Seq<Seq<char>>,
    pub auto_hide_delay: u64,
    pub last_seen_windows: Seq<Seq<char>>,
    pub monitoring_active: bool,
    pub dark_mode: bool,
}

impl View for AppState {
    type V = StateView;

    open spec fn view(&self) -> StateView {
        StateView {
            is_pinned: self.is_pinned,
            monitored_windows: self.monitored_windows.deep_view(),
            auto_hide_delay: self.auto_hide_delay,
            last_seen_windows: self.last_seen_windows.deep_view(),
            monitoring_active: self.monitoring_active,
            dark_mode: self.dark_mode,
        }
    }
}

/// The registry a fresh process starts with: nothing pinned, monitoring
/// off with an empty snapshot, the durable fields taken from the loaded
/// record.
pub open spec fn initial_state(c: ConfigView) -> StateView {
    StateView {
        is_pinned: false,
        monitored_windows: c.monitored_windows,
        auto_hide_delay: c.auto_hide_delay,
        last_seen_windows: Seq::empty(),
        monitoring_active: false,
        dark_mode: c.dark_mode,
    }
}

/// The registry after the pin flag is set.
pub open spec fn with_pinned(s: StateView, pinned: bool) -> StateView {
    StateView { is_pinned: pinned, ..s }
}

/// The registry after the monitored list is replaced.
pub open spec fn with_monitored(s: StateView, windows: Seq<Seq<char>>) -> StateView {
    StateView { monitored_windows: windows, ..s }
}

/// The registry after the auto-hide delay is replaced.
pub open spec fn with_delay(s: StateView, delay: u64) -> StateView {
    StateView { auto_hide_delay: delay, ..s }
}

/// The registry after the theme flag is set.
pub open spec fn with_dark_mode(s: StateView, dark: bool) -> StateView {
    StateView { dark_mode: dark, ..s }
}

pub open spec fn pin_message(pinned: bool) -> Seq<char> {
    if pinned {
        "Window pinned"@
    } else {
        "Window unpinned"@
    }
}

pub open spec fn set_monitored_message(count: nat) -> Seq<char> {
    "Set "@ + dec_digits(count) + " monitored windows"@
}

pub open spec fn set_delay_message(delay: u64) -> Seq<char> {
    "Set auto hide delay to "@ + dec_digits(delay as nat) + " seconds"@
}

pub open spec fn dark_mode_message(dark: bool) -> Seq<char> {
    if dark {
        "Dark mode set to: true"@
    } else {
        "Dark mode set to: false"@
    }
}

impl AppState {
    /// The registry built at startup from the loaded record.
    pub fn from_config(config: &WindowConfig) -> (s: AppState)
        ensures
            s@ == initial_state(config@),
    {
        let s = AppState {
            is_pinned: false,
            monitored_windows: clone_string_vec(&config.monitored_windows),
            auto_hide_delay: config.auto_hide_delay,
            last_seen_windows: Vec::new(),
            monitoring_active: false,
            dark_mode: config.dark_mode,
        };
        proof {
            assert(s.last_seen_windows.deep_view() =~= Seq::<Seq<char>>::empty());
            assert(s@ =~= initial_state(config@));
        }
        s
    }

    /// Records the pin flag and returns the reply the command gives.
    pub fn set_window_pinned(&mut self, pinned: bool) -> (msg: String)
        ensures
            final(self)@ == with_pinned(old(self)@, pinned),
            msg@ == pin_message(pinned),
    {
        self.is_pinned = pinned;
        if pinned {
            String::from_str("Window pinned")
        } else {
            String::from_str("Window unpinned")
        }
    }

    pub fn get_window_pinned(&self) -> (r: bool)
        ensures
            r == self@.is_pinned,
    {
        self.is_pinned
    }

    /// Replaces the monitored list, order and duplicates kept, and
    /// returns the reply naming how many titles are now watched.
    pub fn set_monitored_windows(&mut self, windows: Vec<String>) -> (msg: String)
        ensures
            final(self)@ == with_monitored(old(self)@, windows.deep_view()),
            msg@ == set_monitored_message(windows@.len() as nat),
    {
        let count: u64 = windows.len() as u64;
        self.monitored_windows = windows;
        let mut out: Vec<char> = Vec::new();
        append_str(&mut out, "Set ");
        crate::dec::push_dec_u64(&mut out, count);
        append_str(&mut out, " monitored windows");
        proof {
            assert(out@ =~= set_monitored_message(count as nat));
        }
        string_from_chars(&out)
    }

    /// The monitored list as last set.
    pub fn get_monitored_windows(&self) -> (r: Vec<String>)
        ensures
            r.deep_view() == self@.monitored_windows,
    {
        clone_string_vec(&self.monitored_windows)
    }

    /// Records the auto-hide delay and returns the reply naming it.
    pub fn set_auto_hide_delay(&mut self, delay: u64) -> (msg: String)
        ensures
            final(self)@ == with_delay(old(self)@, delay),
            msg@ == set_delay_message(delay),
    {
        self.auto_hide_delay = delay;
        let mut out: Vec<char> = Vec::new();
        append_str(&mut out, "Set auto hide delay to ");
        crate::dec::push_dec_u64(&mut out, delay);
        append_str(&mut out, " seconds");
        proof {
            assert(out@ =~= set_delay_message(delay));
        }
        string_from_chars(&out)
    }

    pub fn get_auto_hide_delay(&self) -> (r: u64)
        ensures
            r == self@.auto_hide_delay,
    {
        self.auto_hide_delay
    }

    /// Records the theme flag and returns the reply the command gives.
    pub fn set_dark_mode(&mut self, dark: bool) -> (msg: String)
        ensures
            final(self)@ == with_dark_mode(old(self)@, dark),
            msg@ == dark_mode_message(dark),
    {
        self.dark_mode = dark;
        if dark {
            String::from_str("Dark mode set to: true")
        } else {
            String::from_str("Dark mode set to: false")
        }
    }

    pub fn get_dark_mode(&self) -> (r: bool)
        ensures
            r == self@.dark_mode,
    {
        self.dark_mode
    }
}

/// Whatever list was set last is exactly what reading gives back, order
/// and duplicates kept.
pub proof fn lemma_set_then_get_monitored(s: StateView, windows: Seq<Seq<char>>)
    ensures
        with_monitored(s, windows).monitored_windows == windows,
{
}

/// No other registry command touches the monitored list, so the last
/// set list survives any run of them.
pub proof fn lemma_monitored_untouched_by_others(
    s: StateView,
    pinned: bool,
    delay: u64,
    dark: bool,
)
    ensures
        with_pinned(s, pinned).monitored_windows == s.monitored_windows,
        with_delay(s, delay).monitored_windows == s.monitored_windows,
        with_dark_mode(s, dark).monitored_windows == s.monitored_windows,
{
}

} // verus!
