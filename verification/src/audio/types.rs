//! Shared types for audio visualizer mode.

use vstd::prelude::*;
use crate::strs::str_eq;

verus! {

pub const SAMPLE_RATE: u32 = 48_000;
pub const FFT_SIZE: usize = 1024;
pub const BAND_COUNT: usize = 32;
/// One second of samples.
pub const RING_CAPACITY: usize = 48_000;

#[derive(Debug, Clone, Copy, PartialEq, Eq, Default)]
pub enum AudioVisualizerPattern {
    #[default]
    RadialSpectrum,
    AuroraGlobe,
    OrbitalSpectrum,
    ImpactConstellation,
    SpectrumBars,
    WobblyRing,
}

impl AudioVisualizerPattern {
    pub open spec fn spec_name(self) -> Seq<char> {
        match self {
            AudioVisualizerPattern::RadialSpectrum => "radial-spectrum"@,
            AudioVisualizerPattern::AuroraGlobe => "aurora-globe"@,
            AudioVisualizerPattern::OrbitalSpectrum => "orbital-spectrum"@,
            AudioVisualizerPattern::ImpactConstellation => "impact-constellation"@,
            AudioVisualizerPattern::SpectrumBars => "spectrum-bars"@,
            AudioVisualizerPattern::WobblyRing => "wobbly-ring"@,
        }
    }

    /// Scene ids, with the retired aliases mapped onto the current scenes.
    pub open spec fn spec_parse(s: Seq<char>) -> Option<AudioVisualizerPattern> {
        if s == "radial-spectrum"@ {
            Some(AudioVisualizerPattern::RadialSpectrum)
        } else if s == "aurora-globe"@ || s == "spectrum-rings"@ {
            Some(AudioVisualizerPattern::AuroraGlobe)
        } else if s == "orbital-spectrum"@ || s == "wave-ribbon"@ {
            Some(AudioVisualizerPattern::OrbitalSpectrum)
        } else if s == "impact-constellation"@ || s == "bass-pulse"@ {
            Some(AudioVisualizerPattern::ImpactConstellation)
        } else if s == "spectrum-bars"@ {
            Some(AudioVisualizerPattern::SpectrumBars)
        } else if s == "wobbly-ring"@ {
            Some(AudioVisualizerPattern::WobblyRing)
        } else {
            None
        }
    }

    /// Parse scene id. Known aliases resolve to the current scene.
    pub fn parse(s: &str) -> (r: Option<Self>)
        ensures
            r == AudioVisualizerPattern::spec_parse(s@),
    {
        if str_eq(s, "radial-spectrum") {
            Some(Self::RadialSpectrum)
        } else if str_eq(s, "aurora-globe") || str_eq(s, "spectrum-rings") {
            Some(Self::AuroraGlobe)
        } else if str_eq(s, "orbital-spectrum") || str_eq(s, "wave-ribbon") {
            Some(Self::OrbitalSpectrum)
        } else if str_eq(s, "impact-constellation") || str_eq(s, "bass-pulse") {
            Some(Self::ImpactConstellation)
        } else if str_eq(s, "spectrum-bars") {
            Some(Self::SpectrumBars)
        } else if str_eq(s, "wobbly-ring") {
            Some(Self::WobblyRing)
        } else {
            None
        }
    }

    pub fn as_str(self) -> (r: &'static str)
        ensures
            r@ == self.spec_name(),
    {
        match self {
            Self::RadialSpectrum => "radial-spectrum",
            Self::AuroraGlobe => "aurora-globe",
            Self::OrbitalSpectrum => "orbital-spectrum",
            Self::ImpactConstellation => "impact-constellation",
            Self::SpectrumBars => "spectrum-bars",
            Self::WobblyRing => "wobbly-ring",
        }
    }
}

/// Naming law: every scene's id parses back to that scene.
pub proof fn lemma_pattern_roundtrip(p: AudioVisualizerPattern)
    ensures
        AudioVisualizerPattern::spec_parse(p.spec_name()) == Some(p),
{
    reveal_strlit("radial-spectrum");
    reveal_strlit("aurora-globe");
    reveal_strlit("spectrum-rings");
    reveal_strlit("orbital-spectrum");
    reveal_strlit("wave-ribbon");
    reveal_strlit("impact-constellation");
    reveal_strlit("bass-pulse");
    reveal_strlit("spectrum-bars");
    reveal_strlit("wobbly-ring");
    let n = p.spec_name();
    if n != "radial-spectrum"@ {
    }
    match p {
        AudioVisualizerPattern::RadialSpectrum => {},
        AudioVisualizerPattern::AuroraGlobe => {
            assert(n[0] != "radial-spectrum"@[0]);
        },
        AudioVisualizerPattern::OrbitalSpectrum => {
            assert(n[0] != "radial-spectrum"@[0]);
            assert(n[0] != "aurora-globe"@[0]);
            assert(n[0] != "spectrum-rings"@[0]);
        },
        AudioVisualizerPattern::ImpactConstellation => {
            assert(n[0] != "radial-spectrum"@[0]);
            assert(n[0] != "aurora-globe"@[0]);
            assert(n[0] != "spectrum-rings"@[0]);
            assert(n[0] != "orbital-spectrum"@[0]);
            assert(n[0] != "wave-ribbon"@[0]);
        },
        AudioVisualizerPattern::SpectrumBars => {
            assert(n[0] != "radial-spectrum"@[0]);
            assert(n[0] != "aurora-globe"@[0]);
            assert(n[9] != "spectrum-rings"@[9]);
            assert(n[0] != "orbital-spectrum"@[0]);
            assert(n[0] != "wave-ribbon"@[0]);
            assert(n[0] != "impact-constellation"@[0]);
            assert(n[0] != "bass-pulse"@[0]);
        },
        AudioVisualizerPattern::WobblyRing => {
            assert(n[0] != "radial-spectrum"@[0]);
            assert(n[0] != "aurora-globe"@[0]);
            assert(n[0] != "spectrum-rings"@[0]);
            assert(n[0] != "orbital-spectrum"@[0]);
            assert(n[1] != "wave-ribbon"@[1]);
            assert(n[0] != "impact-constellation"@[0]);
            assert(n[0] != "bass-pulse"@[0]);
            assert(n[0] != "spectrum-bars"@[0]);
        },
    }
}

#[derive(Debug, Clone, Copy, PartialEq, Eq, Default)]
pub enum AudioVisualizerPalette {
    #[default]
    Rainbow,
    Aurora,
    Nebula,
    Solar,
    Ice,
}

impl AudioVisualizerPalette {
    pub open spec fn spec_name(self) -> Seq<char> {
        match self {
            AudioVisualizerPalette::Rainbow => "rainbow"@,
            AudioVisualizerPalette::Aurora => "aurora"@,
            AudioVisualizerPalette::Nebula => "nebula"@,
            AudioVisualizerPalette::Solar => "solar"@,
            AudioVisualizerPalette::Ice => "ice"@,
        }
    }

    pub open spec fn spec_parse(s: Seq<char>) -> Option<AudioVisualizerPalette> {
        if s == "rainbow"@ {
            Some(AudioVisualizerPalette::Rainbow)
        } else if s == "aurora"@ {
            Some(AudioVisualizerPalette::Aurora)
        } else if s == "nebula"@ {
            Some(AudioVisualizerPalette::Nebula)
        } else if s == "solar"@ {
            Some(AudioVisualizerPalette::Solar)
        } else if s == "ice"@ {
            Some(AudioVisualizerPalette::Ice)
        } else {
            None
        }
    }

    pub fn parse(s: &str) -> (r: Option<Self>)
        ensures
            r == AudioVisualizerPalette::spec_parse(s@),
    {
        if str_eq(s, "rainbow") {
            Some(Self::Rainbow)
        } else if str_eq(s, "aurora") {
            Some(Self::Aurora)
        } else if str_eq(s, "nebula") {
            Some(Self::Nebula)
        } else if str_eq(s, "solar") {
            Some(Self::Solar)
        } else if str_eq(s, "ice") {
            Some(Self::Ice)
        } else {
            None
        }
    }

    pub fn as_str(self) -> (r: &'static str)
        ensures
            r@ == self.spec_name(),
    {
        match self {
            Self::Rainbow => "rainbow",
            Self::Aurora => "aurora",
            Self::Nebula => "nebula",
            Self::Solar => "solar",
            Self::Ice => "ice",
        }
    }
}

/// Naming law: every palette's id parses back to that palette.
pub proof fn lemma_palette_roundtrip(p: AudioVisualizerPalette)
    ensures
        AudioVisualizerPalette::spec_parse(p.spec_name()) == Some(p),
{
    reveal_strlit("rainbow");
    reveal_strlit("aurora");
    reveal_strlit("nebula");
    reveal_strlit("solar");
    reveal_strlit("ice");
    let n = p.spec_name();
    match p {
        AudioVisualizerPalette::Rainbow => {},
        AudioVisualizerPalette::Aurora => {
            assert(n[0] != "rainbow"@[0]);
        },
        AudioVisualizerPalette::Nebula => {
            assert(n[0] != "rainbow"@[0]);
            assert(n[0] != "aurora"@[0]);
        },
        AudioVisualizerPalette::Solar => {
            assert(n[0] != "rainbow"@[0]);
            assert(n[0] != "aurora"@[0]);
            assert(n[0] != "nebula"@[0]);
        },
        AudioVisualizerPalette::Ice => {
            assert(n[0] != "rainbow"@[0]);
            assert(n[0] != "aurora"@[0]);
            assert(n[0] != "nebula"@[0]);
            assert(n[0] != "solar"@[0]);
        },
    }
}

#[derive(Debug, Clone, Copy, PartialEq, Eq)]
pub enum AudioInputKind {
    Source,
    Monitor,
}

/// A capturable PipeWire node.
#[derive(Debug, Clone)]
pub struct AudioInputDevice {
    pub id: String,
    pub name: String,
    pub kind: AudioInputKind,
}

/// Whether audio capture is possible on this host, and why not.
#[derive(Debug, Clone)]
pub struct AudioPlatformInfo {
    pub available: bool,
    pub reason: Option<String>,
    pub backend: &'static str,
}

} // verus!
