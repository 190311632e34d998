//! The persistent configuration record: window geometry per named slot,
//! the monitored-window list, the auto-hide delay and the dark-mode flag.

use vstd::prelude::*;

use crate::text::{append_str, clone_string_vec, str_eq, string_from_chars};

verus! {

/// Saved outer geometry of one named window slot.
#[derive(Clone, Copy, Debug, PartialEq, Eq, Structural)]
pub struct WindowPosition {
    pub x: i32,
    pub y: i32,
    pub width: u32,
    pub height: u32,
}

/// Ghost image of a [`WindowPosition`].
pub ghost struct PositionView {
    pub x: i32,
    pub y: i32,
    pub width: u32,
    pub height: u32,
}

impl View for WindowPosition {
    type V = PositionView;

    open spec fn view(&self) -> PositionView {
        PositionView { x: self.x, y: self.y, width: self.width, height: self.height }
    }
}

/// The configuration record that is mirrored to disk after every mutation.
/// Absence of a saved geometry is represented by `None`, never by a dummy
/// value; the monitored list keeps order and duplicates as given.
#[derive(Clone, Debug)]
pub struct WindowConfig {
    pub monitored_windows: Vec<String>,
    pub auto_hide_delay: u64,
    pub main_window_position: Option<WindowPosition>,
    pub preference_window_position: Option<WindowPosition>,
    pub dark_mode: bool,
}

/// Ghost image of a [`WindowConfig`]: titles as character sequences,
/// geometries as optional ghost positions.
pub ghost struct ConfigView {
    pub monitored_windows: Seq<Seq<char>>,
    pub auto_hide_delay: u64,
    pub main_window_position: Option<PositionView>,
    pub preference_window_position: Option<PositionView>,
    pub dark_mode: bool,
}

/// The ghost image of one geometry slot.
pub open spec fn opt_position_view(o: Option<WindowPosition>) -> Option<PositionView> {
    match o {
        Some(p) => Some(p@),
        None => None,
    }
}

impl View for WindowConfig {
    type V = ConfigView;

    open spec fn view(&self) -> ConfigView {
        ConfigView {
            monitored_windows: self.monitored_windows.deep_view(),
            auto_hide_delay: self.auto_hide_delay,
            main_window_position: opt_position_view(self.main_window_position),
            preference_window_position: opt_position_view(self.preference_window_position),
            dark_mode: self.dark_mode,
        }
    }
}

/// The delay the record carries when the backing file gave none.
pub const DEFAULT_AUTO_HIDE_DELAY: u64 = 5;

/// The default record: no monitored titles, a five second auto-hide
/// delay, no saved geometry, light theme.
pub open spec fn default_config() -> ConfigView {
    ConfigView {
        monitored_windows: Seq::empty(),
        auto_hide_delay: DEFAULT_AUTO_HIDE_DELAY,
        main_window_position: None,
        preference_window_position: None,
        dark_mode: false,
    }
}

/// The reply when a slot name is neither `main` nor `preference`.
pub open spec fn unknown_label_message(label: Seq<char>) -> Seq<char> {
    "Unknown window label: "@ + label
}

/// The reply after one slot's geometry was saved.
pub open spec fn position_saved_message(label: Seq<char>) -> Seq<char> {
    "Saved position for window: "@ + label
}

impl WindowConfig {
    /// The record to write after the monitored list or the delay
    /// changed. Each of those two setters owns one field and reads the
    /// other's current value from the registry, so both come in fresh;
    /// the geometry slots and the theme are kept from the disk record,
    /// never blindly overwritten.
    pub fn merged_with_monitoring(&self, monitored: &Vec<String>, delay: u64) -> (c: WindowConfig)
        ensures
            c@ == (ConfigView {
                monitored_windows: monitored.deep_view(),
                auto_hide_delay: delay,
                ..self@
            }),
    {
        WindowConfig {
            monitored_windows: clone_string_vec(monitored),
            auto_hide_delay: delay,
            main_window_position: self.main_window_position,
            preference_window_position: self.preference_window_position,
            dark_mode: self.dark_mode,
        }
    }

    /// The record to write after the theme changed: only that flag is
    /// fresh, everything else is kept from the disk record.
    pub fn merged_with_dark_mode(&self, dark: bool) -> (c: WindowConfig)
        ensures
            c@ == (ConfigView { dark_mode: dark, ..self@ }),
    {
        WindowConfig {
            monitored_windows: clone_string_vec(&self.monitored_windows),
            auto_hide_delay: self.auto_hide_delay,
            main_window_position: self.main_window_position,
            preference_window_position: self.preference_window_position,
            dark_mode: dark,
        }
    }

    /// The record to write after one window slot moved or resized: that
    /// slot replaced, everything else kept. A slot name other than
    /// `main` or `preference` is refused with the reply naming it.
    pub fn merged_with_position(&self, window_label: &str, position: WindowPosition) -> (r: Result<
        WindowConfig,
        String,
    >)
        ensures
            match r {
                Ok(c) => {
                    &&& window_label@ == "main"@ || window_label@ == "preference"@
                    &&& window_label@ == "main"@ ==> c@ == (ConfigView {
                        main_window_position: Some(position@),
                        ..self@
                    })
                    &&& window_label@ != "main"@ ==> c@ == (ConfigView {
                        preference_window_position: Some(position@),
                        ..self@
                    })
                },
                Err(e) => {
                    &&& window_label@ != "main"@
                    &&& window_label@ != "preference"@
                    &&& e@ == unknown_label_message(window_label@)
                },
            },
    {
        if str_eq(window_label, "main") {
            Ok(
                WindowConfig {
                    monitored_windows: clone_string_vec(&self.monitored_windows),
                    auto_hide_delay: self.auto_hide_delay,
                    main_window_position: Some(position),
                    preference_window_position: self.preference_window_position,
                    dark_mode: self.dark_mode,
                },
            )
        } else if str_eq(window_label, "preference") {
            Ok(
                WindowConfig {
                    monitored_windows: clone_string_vec(&self.monitored_windows),
                    auto_hide_delay: self.auto_hide_delay,
                    main_window_position: self.main_window_position,
                    preference_window_position: Some(position),
                    dark_mode: self.dark_mode,
                },
            )
        } else {
            let mut out: Vec<char> = Vec::new();
            append_str(&mut out, "Unknown window label: ");
            append_str(&mut out, window_label);
            Err(string_from_chars(&out))
        }
    }

    /// The saved geometry of one slot; a slot never saved, or an
    /// unknown slot name, has none.
    pub fn get_window_position(&self, window_label: &str) -> (r: Option<WindowPosition>)
        ensures
            r == (if window_label@ == "main"@ {
                self.main_window_position
            } else if window_label@ == "preference"@ {
                self.preference_window_position
            } else {
                None::<WindowPosition>
            }),
    {
        if str_eq(window_label, "main") {
            self.main_window_position
        } else if str_eq(window_label, "preference") {
            self.preference_window_position
        } else {
            None
        }
    }
}

/// The reply after one slot's geometry was saved to disk.
pub fn saved_position_reply(window_label: &str) -> (r: String)
    ensures
        r@ == position_saved_message(window_label@),
{
    let mut out: Vec<char> = Vec::new();
    append_str(&mut out, "Saved position for window: ");
    append_str(&mut out, window_label);
    string_from_chars(&out)
}

/// Where the record lives under the application data directory.
pub fn config_file_path(app_data_dir: &str) -> (r: String)
    ensures
        r@ == app_data_dir@ + "/window_config.json"@,
{
    let mut out: Vec<char> = Vec::new();
    append_str(&mut out, app_data_dir);
    append_str(&mut out, "/window_config.json");
    string_from_chars(&out)
}

impl Default for WindowConfig {
    fn default() -> (c: WindowConfig)
        ensures
            c@ == default_config(),
    {
        let c = WindowConfig {
            monitored_windows: Vec::new(),
            auto_hide_delay: DEFAULT_AUTO_HIDE_DELAY,
            main_window_position: None,
            preference_window_position: None,
            dark_mode: false,
        };
        proof {
            assert(c@.monitored_windows =~= Seq::<Seq<char>>::empty());
            assert(c@ =~= default_config());
        }
        c
    }
}

} // verus!
