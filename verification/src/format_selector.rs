//! Quality and codec preferences by which a variant of an asset is chosen and found again.

use vstd::prelude::*;
use vstd::string::*;
use crate::text::{contains, has_substring, lowercase, to_lowercase};

verus! {

/// Video quality preference.
#[derive(Debug, Clone, Copy, PartialEq, Eq, Structural)]
pub enum VideoQuality {
    Best,
    High,
    Medium,
    Low,
    Worst,
    CustomHeight(u32),
    CustomWidth(u32),
}

/// Audio quality preference.
#[derive(Debug, Clone, Copy, PartialEq, Eq, Structural)]
pub enum AudioQuality {
    Best,
    High,
    Medium,
    Low,
    Worst,
    CustomBitrate(u32),
}

/// Video codec preference.
#[derive(Debug, Clone)]
pub enum VideoCodecPreference {
    VP9,
    AVC1,
    AV1,
    Custom(String),
    Any,
}

/// Audio codec preference.
#[derive(Debug, Clone)]
pub enum AudioCodecPreference {
    Opus,
    AAC,
    MP3,
    Custom(String),
    Any,
}

impl VideoCodecPreference {
    /// What tells preferences apart: the variant's position and the custom name, if any.
    pub open spec fn key(self) -> (int, Seq<char>) {
        match self {
            VideoCodecPreference::VP9 => (0, Seq::empty()),
            VideoCodecPreference::AVC1 => (1, Seq::empty()),
            VideoCodecPreference::AV1 => (2, Seq::empty()),
            VideoCodecPreference::Custom(name) => (3, name@),
            VideoCodecPreference::Any => (4, Seq::empty()),
        }
    }

    /// Whether two preferences are the same.
    pub fn same(&self, other: &VideoCodecPreference) -> (r: bool)
        ensures
            r == (self.key() == other.key()),
    {
        match (self, other) {
            (VideoCodecPreference::VP9, VideoCodecPreference::VP9) => true,
            (VideoCodecPreference::AVC1, VideoCodecPreference::AVC1) => true,
            (VideoCodecPreference::AV1, VideoCodecPreference::AV1) => true,
            (VideoCodecPreference::Any, VideoCodecPreference::Any) => true,
            (VideoCodecPreference::Custom(a), VideoCodecPreference::Custom(b)) => {
                *a == *b
            },
            _ => false,
        }
    }

    /// A copy of the preference.
    pub fn duplicate(&self) -> (r: VideoCodecPreference)
        ensures
            r == *self,
    {
        match self {
            VideoCodecPreference::VP9 => VideoCodecPreference::VP9,
            VideoCodecPreference::AVC1 => VideoCodecPreference::AVC1,
            VideoCodecPreference::AV1 => VideoCodecPreference::AV1,
            VideoCodecPreference::Custom(c) => VideoCodecPreference::Custom(c.clone()),
            VideoCodecPreference::Any => VideoCodecPreference::Any,
        }
    }
}

impl AudioCodecPreference {
    /// What tells preferences apart: the variant's position and the custom name, if any.
    pub open spec fn key(self) -> (int, Seq<char>) {
        match self {
            AudioCodecPreference::Opus => (0, Seq::empty()),
            AudioCodecPreference::AAC => (1, Seq::empty()),
            AudioCodecPreference::MP3 => (2, Seq::empty()),
            AudioCodecPreference::Custom(name) => (3, name@),
            AudioCodecPreference::Any => (4, Seq::empty()),
        }
    }

    /// Whether two preferences are the same.
    pub fn same(&self, other: &AudioCodecPreference) -> (r: bool)
        ensures
            r == (self.key() == other.key()),
    {
        match (self, other) {
            (AudioCodecPreference::Opus, AudioCodecPreference::Opus) => true,
            (AudioCodecPreference::AAC, AudioCodecPreference::AAC) => true,
            (AudioCodecPreference::MP3, AudioCodecPreference::MP3) => true,
            (AudioCodecPreference::Any, AudioCodecPreference::Any) => true,
            (AudioCodecPreference::Custom(a), AudioCodecPreference::Custom(b)) => *a == *b,
            _ => false,
        }
    }

    /// A copy of the preference.
    pub fn duplicate(&self) -> (r: AudioCodecPreference)
        ensures
            r == *self,
    {
        match self {
            AudioCodecPreference::Opus => AudioCodecPreference::Opus,
            AudioCodecPreference::AAC => AudioCodecPreference::AAC,
            AudioCodecPreference::MP3 => AudioCodecPreference::MP3,
            AudioCodecPreference::Custom(c) => AudioCodecPreference::Custom(c.clone()),
            AudioCodecPreference::Any => AudioCodecPreference::Any,
        }
    }
}

/// Whether a codec name meets a video codec preference: its lowercase form holds one
/// of the names the preference stands for.
pub open spec fn spec_matches_video_codec(codec: Seq<char>, preference: VideoCodecPreference) -> bool {
    let lower = lowercase(codec);
    match preference {
        VideoCodecPreference::VP9 => has_substring(lower, "vp9"@),
        VideoCodecPreference::AVC1 => has_substring(lower, "avc1"@) || has_substring(
            lower,
            "h264"@,
        ) || has_substring(lower, "h.264"@),
        VideoCodecPreference::AV1 => has_substring(lower, "av1"@) || has_substring(lower, "av01"@),
        VideoCodecPreference::Custom(custom) => has_substring(lower, lowercase(custom@)),
        VideoCodecPreference::Any => true,
    }
}

/// Whether the codec name `codec` meets the video codec preference.
pub fn matches_video_codec(codec: &str, preference: &VideoCodecPreference) -> (r: bool)
    ensures
        r == spec_matches_video_codec(codec@, *preference),
{
    let lower = to_lowercase(codec);
    match preference {
        VideoCodecPreference::VP9 => contains(lower.as_str(), "vp9"),
        VideoCodecPreference::AVC1 => contains(lower.as_str(), "avc1") || contains(
            lower.as_str(),
            "h264",
        ) || contains(lower.as_str(), "h.264"),
        VideoCodecPreference::AV1 => contains(lower.as_str(), "av1") || contains(
            lower.as_str(),
            "av01",
        ),
        VideoCodecPreference::Custom(custom) => {
            let wanted = to_lowercase(custom.as_str());
            contains(lower.as_str(), wanted.as_str())
        },
        VideoCodecPreference::Any => true,
    }
}

/// Whether a codec name meets an audio codec preference: its lowercase form holds one
/// of the names the preference stands for.
pub open spec fn spec_matches_audio_codec(codec: Seq<char>, preference: AudioCodecPreference) -> bool {
    let lower = lowercase(codec);
    match preference {
        AudioCodecPreference::Opus => has_substring(lower, "opus"@),
        AudioCodecPreference::AAC => has_substring(lower, "aac"@) || has_substring(lower, "mp4a"@),
        AudioCodecPreference::MP3 => has_substring(lower, "mp3"@),
        AudioCodecPreference::Custom(custom) => has_substring(lower, lowercase(custom@)),
        AudioCodecPreference::Any => true,
    }
}

/// Whether the codec name `codec` meets the audio codec preference.
pub fn matches_audio_codec(codec: &str, preference: &AudioCodecPreference) -> (r: bool)
    ensures
        r == spec_matches_audio_codec(codec@, *preference),
{
    let lower = to_lowercase(codec);
    match preference {
        AudioCodecPreference::Opus => contains(lower.as_str(), "opus"),
        AudioCodecPreference::AAC => contains(lower.as_str(), "aac") || contains(
            lower.as_str(),
            "mp4a",
        ),
        AudioCodecPreference::MP3 => contains(lower.as_str(), "mp3"),
        AudioCodecPreference::Custom(custom) => {
            let wanted = to_lowercase(custom.as_str());
            contains(lower.as_str(), wanted.as_str())
        },
        AudioCodecPreference::Any => true,
    }
}

} // verus!
