//! The application's configuration record. Reading and writing the
//! configuration file happens outside the verified core; the core consumes
//! these plain values.

use vstd::prelude::*;

verus! {

/// The configuration values the reader consumes.
pub struct AppConfig {
    pub library_path: String,
    pub theme: String,
    pub margin: u16,
    pub line_spacing: u16,
    pub auto_resume: bool,
    pub daily_goal_words: usize,
    pub pomodoro_work_minutes: u64,
    pub pomodoro_break_minutes: u64,
}

impl Default for AppConfig {
    /// The built-in defaults. The library path starts at the working
    /// directory; the caller may widen it to the user's home directory.
    fn default() -> (r: AppConfig)
        ensures
            r.library_path@ == "."@,
            r.theme@ == "Default"@,
            r.margin == 2,
            r.line_spacing == 0,
            r.auto_resume == true,
            r.daily_goal_words == 1500,
            r.pomodoro_work_minutes == 25,
            r.pomodoro_break_minutes == 5,
    {
        AppConfig {
            library_path: ".".to_owned(),
            theme: "Default".to_owned(),
            margin: 2,
            line_spacing: 0,
            auto_resume: true,
            daily_goal_words: 1500,
            pomodoro_work_minutes: 25,
            pomodoro_break_minutes: 5,
        }
    }
}

} // verus!
