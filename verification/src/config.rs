//! Runtime configuration (read from TOML by the application) and its defaults.

use vstd::prelude::*;

verus! {

#[derive(Debug, Clone)]
pub struct Config {
    pub output: Output,
    pub server: Server,
    pub modes: Modes,
    pub assets: Assets,
    pub audio: Audio,
}

#[derive(Debug, Clone)]
pub struct Audio {
    /// Optional PipeWire node.name to capture on startup.
    pub default_input: Option<String>,
    /// Analysis / visualizer update hint (Hz).
    pub analysis_hz: u32,
}

impl Default for Audio {
    /// An absent `[audio]` table: no input, and a zero rate hint (the per-key default
    /// of `default_analysis_hz` applies only inside a present table).
    fn default() -> (r: Self)
        ensures
            r.default_input is None,
            r.analysis_hz == 0,
    {
        Audio { default_input: None, analysis_hz: 0 }
    }
}

/// `analysis_hz` when an `[audio]` table omits it.
pub fn default_analysis_hz() -> (r: u32)
    ensures
        r == 60,
{
    60
}

#[derive(Debug, Clone)]
pub struct Output {
    pub udp_port: u16,
    pub status_port: u16,
}

/// `status_port` when `[output]` omits it.
pub fn default_status_port() -> (r: u16)
    ensures
        r == 49153,
{
    49153
}

#[derive(Debug, Clone)]
pub struct Server {
    pub bind: String,
}

/// Asset locations; each `None` selects the built-in default under the repository root.
#[derive(Debug, Clone)]
pub struct Assets {
    pub compiled_dir: Option<String>,
    pub clips_dir: Option<String>,
    pub sources_dir: Option<String>,
    pub uploads_dir: Option<String>,
    pub devices_path: Option<String>,
    pub text_font_path: Option<String>,
}

impl Default for Assets {
    fn default() -> (r: Self)
        ensures
            r.compiled_dir is None,
            r.clips_dir is None,
            r.sources_dir is None,
            r.uploads_dir is None,
            r.devices_path is None,
            r.text_font_path is None,
    {
        Assets {
            compiled_dir: None,
            clips_dir: None,
            sources_dir: None,
            uploads_dir: None,
            devices_path: None,
            text_font_path: None,
        }
    }
}

#[derive(Debug, Clone)]
pub struct Modes {
    pub default: String,
}

/// Output mode at startup when `[modes]` does not name one.
pub fn default_mode() -> (r: String)
    ensures
        r@ == "idle"@,
{
    String::from_str("idle")
}

impl Default for Modes {
    fn default() -> (r: Self)
        ensures
            r.default@ == "idle"@,
    {
        Modes { default: default_mode() }
    }
}

} // verus!
