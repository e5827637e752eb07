//! What the applet remembers between runs.

use vstd::prelude::*;

verus! {

/// Red, green and blue, eight bits each.
pub type Rgb = (u8, u8, u8);

/// The smallest window, in pixels.
pub const MIN_WINDOW_WIDTH: u32 = 500;

pub const MIN_WINDOW_HEIGHT: u32 = 300;

/// The directory below the user's configuration directory.
pub const CONFIG_DIR_NAME: &'static str = "drop-term";

/// The file in that directory.
pub const CONFIG_FILE_NAME: &'static str = "config.ron";

/// The user's settings.
#[derive(Debug, Clone, Copy, PartialEq, Eq)]
pub struct AppConfig {
    /// The drop-down window's size in pixels.
    pub window_width: u32,
    pub window_height: u32,
    /// The colour of `user@host` in the shell prompt.
    pub user_host_color: Rgb,
    /// The colour of the working directory in the shell prompt.
    pub directory_color: Rgb,
}

/// `size`, but no less than `least`.
pub open spec fn at_least(size: u32, least: u32) -> u32 {
    if size < least {
        least
    } else {
        size
    }
}

impl AppConfig {
    /// The settings with the window `width` by `height` pixels, or larger where
    /// that is too small.
    pub open spec fn sized(self, width: u32, height: u32) -> AppConfig {
        AppConfig {
            window_width: at_least(width, MIN_WINDOW_WIDTH),
            window_height: at_least(height, MIN_WINDOW_HEIGHT),
            ..self
        }
    }

    /// Whether the window is large enough.
    pub open spec fn wf(self) -> bool {
        self.window_width >= MIN_WINDOW_WIDTH && self.window_height >= MIN_WINDOW_HEIGHT
    }

    pub(crate) fn set_size(&mut self, width: u32, height: u32)
        ensures
            *final(self) == old(self).sized(width, height),
            final(self).wf(),
    {
        self.window_width = if width < MIN_WINDOW_WIDTH {
            MIN_WINDOW_WIDTH
        } else {
            width
        };
        self.window_height = if height < MIN_WINDOW_HEIGHT {
            MIN_WINDOW_HEIGHT
        } else {
            height
        };
    }
}

/// The settings of a first run.
pub open spec fn default_config() -> AppConfig {
    AppConfig {
        window_width: 900,
        window_height: 500,
        user_host_color: (0, 205, 0),
        directory_color: (0, 0, 238),
    }
}

/// The ANSI green that most shell prompts use for `user@host`.
pub fn default_user_host_color() -> (color: Rgb)
    ensures
        color == default_config().user_host_color,
{
    (0, 205, 0)
}

/// The ANSI blue that most shell prompts use for the working directory.
pub fn default_directory_color() -> (color: Rgb)
    ensures
        color == default_config().directory_color,
{
    (0, 0, 238)
}

impl Default for AppConfig {
    fn default() -> (config: Self)
        ensures
            config == default_config(),
    {
        AppConfig {
            window_width: 900,
            window_height: 500,
            user_host_color: default_user_host_color(),
            directory_color: default_directory_color(),
        }
    }
}

/// The settings to start with, given those that were stored, and whether they
/// have to be stored.
pub open spec fn loaded(stored: Option<AppConfig>) -> (AppConfig, bool) {
    match stored {
        Some(config) => (config.sized(config.window_width, config.window_height), false),
        None => (default_config(), true),
    }
}

/// The settings to start with, given those that the configuration file held, if
/// it could be read and understood, and whether they have to be written to the
/// file.
pub fn load(stored: Option<AppConfig>) -> (result: (AppConfig, bool))
    ensures
        result == loaded(stored),
        result.0.wf(),
{
    match stored {
        Some(config) => {
            let mut config = config;
            config.set_size(config.window_width, config.window_height);
            (config, false)
        },
        None => (AppConfig::default(), true),
    }
}

/// Settings that were loaded and stored are loaded again as they were, and need
/// not be stored another time.
pub proof fn law_loading_is_stable(stored: Option<AppConfig>)
    ensures
        loaded(Some(loaded(stored).0)) == (loaded(stored).0, false),
{
}

} // verus!
