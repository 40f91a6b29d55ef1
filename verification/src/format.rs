//! Kinds of media formats.

use vstd::prelude::*;
use vstd::string::*;

verus! {

/// File extension of a format.
#[derive(Debug, Clone, Copy, PartialEq, Eq, Hash, Structural)]
pub enum Extension {
    M4A,
    Mp4,
    Webm,
    Mhtml,
    Absent,
    Unknown,
}

/// Container of a format.
#[derive(Debug, Clone, Copy, PartialEq, Eq, Hash, Structural)]
pub enum Container {
    Webm,
    M4A,
    Mp4,
    Unknown,
}

/// Protocol by which a format is served.
#[derive(Debug, Clone, Copy, PartialEq, Eq, Hash, Structural)]
pub enum Protocol {
    Https,
    M3U8Native,
    Mhtml,
    Unknown,
}

/// Dynamic range of a format.
#[derive(Debug, Clone, Copy, PartialEq, Eq, Hash, Structural)]
pub enum DynamicRange {
    SDR,
    HDR,
    Unknown,
}

/// What a format carries.
#[derive(Debug, Clone, Copy, PartialEq, Eq, Hash, Structural)]
pub enum FormatType {
    Audio,
    Video,
    AudioVideo,
    Manifest,
    Storyboard,
    Unknown,
}

impl Default for Extension {
    fn default() -> (r: Extension)
        ensures
            r == Extension::Unknown,
    {
        Extension::Unknown
    }
}

impl Default for Container {
    fn default() -> (r: Container)
        ensures
            r == Container::Unknown,
    {
        Container::Unknown
    }
}

impl Default for Protocol {
    fn default() -> (r: Protocol)
        ensures
            r == Protocol::Unknown,
    {
        Protocol::Unknown
    }
}

impl Default for DynamicRange {
    fn default() -> (r: DynamicRange)
        ensures
            r == DynamicRange::Unknown,
    {
        DynamicRange::Unknown
    }
}

impl Default for FormatType {
    fn default() -> (r: FormatType)
        ensures
            r == FormatType::Unknown,
    {
        FormatType::Unknown
    }
}

impl Extension {
    /// The extension as it is written.
    pub open spec fn spec_name(self) -> Seq<char> {
        match self {
            Extension::M4A => "m4a"@,
            Extension::Mp4 => "mp4"@,
            Extension::Webm => "webm"@,
            Extension::Mhtml => "mhtml"@,
            Extension::Absent => "none"@,
            Extension::Unknown => "unknown"@,
        }
    }

    /// The extension as it is written.
    pub fn name(&self) -> (r: &'static str)
        ensures
            r@ == self.spec_name(),
    {
        match self {
            Extension::M4A => "m4a",
            Extension::Mp4 => "mp4",
            Extension::Webm => "webm",
            Extension::Mhtml => "mhtml",
            Extension::Absent => "none",
            Extension::Unknown => "unknown",
        }
    }
}

impl Container {
    /// The container as it is written.
    pub open spec fn spec_name(self) -> Seq<char> {
        match self {
            Container::Mp4 => "mp4"@,
            Container::Webm => "webm"@,
            Container::M4A => "m4a"@,
            Container::Unknown => "unknown"@,
        }
    }

    /// The container as it is written.
    pub fn name(&self) -> (r: &'static str)
        ensures
            r@ == self.spec_name(),
    {
        match self {
            Container::Mp4 => "mp4",
            Container::Webm => "webm",
            Container::M4A => "m4a",
            Container::Unknown => "unknown",
        }
    }
}

impl Protocol {
    /// The protocol as it is written.
    pub open spec fn spec_name(self) -> Seq<char> {
        match self {
            Protocol::Https => "https"@,
            Protocol::M3U8Native => "hls"@,
            Protocol::Mhtml => "mhtml"@,
            Protocol::Unknown => "unknown"@,
        }
    }

    /// The protocol as it is written.
    pub fn name(&self) -> (r: &'static str)
        ensures
            r@ == self.spec_name(),
    {
        match self {
            Protocol::Https => "https",
            Protocol::M3U8Native => "hls",
            Protocol::Mhtml => "mhtml",
            Protocol::Unknown => "unknown",
        }
    }
}

impl DynamicRange {
    /// The dynamic range as it is written.
    pub open spec fn spec_name(self) -> Seq<char> {
        match self {
            DynamicRange::SDR => "SDR"@,
            DynamicRange::HDR => "HDR"@,
            DynamicRange::Unknown => "Unknown"@,
        }
    }

    /// The dynamic range as it is written.
    pub fn name(&self) -> (r: &'static str)
        ensures
            r@ == self.spec_name(),
    {
        match self {
            DynamicRange::SDR => "SDR",
            DynamicRange::HDR => "HDR",
            DynamicRange::Unknown => "Unknown",
        }
    }
}

impl FormatType {
    /// The kind of a format: a manifest if it has a manifest address, else a storyboard
    /// if it has fragments, else by the codecs it names; a format that names none
    /// counts as a manifest.
    pub open spec fn spec_classify(
        has_manifest_url: bool,
        has_fragments: bool,
        has_audio_codec: bool,
        has_video_codec: bool,
    ) -> FormatType {
        if has_manifest_url {
            FormatType::Manifest
        } else if has_fragments {
            FormatType::Storyboard
        } else if has_audio_codec && has_video_codec {
            FormatType::AudioVideo
        } else if has_audio_codec {
            FormatType::Audio
        } else if has_video_codec {
            FormatType::Video
        } else {
            FormatType::Manifest
        }
    }

    /// The kind of a format, from what it holds.
    pub fn classify(
        has_manifest_url: bool,
        has_fragments: bool,
        has_audio_codec: bool,
        has_video_codec: bool,
    ) -> (r: FormatType)
        ensures
            r == Self::spec_classify(has_manifest_url, has_fragments, has_audio_codec, has_video_codec),
    {
        if has_manifest_url {
            return FormatType::Manifest;
        }
        if has_fragments {
            return FormatType::Storyboard;
        }
        match (has_audio_codec, has_video_codec) {
            (true, true) => FormatType::AudioVideo,
            (true, false) => FormatType::Audio,
            (false, true) => FormatType::Video,
            _ => FormatType::Manifest,
        }
    }

    /// Whether the format carries audio and video.
    pub fn is_audio_and_video(&self) -> (r: bool)
        ensures
            r == (*self == FormatType::AudioVideo),
    {
        matches!(self, FormatType::AudioVideo)
    }

    /// Whether the format carries video only.
    pub fn is_video(&self) -> (r: bool)
        ensures
            r == (*self == FormatType::Video),
    {
        matches!(self, FormatType::Video)
    }

    /// Whether the format carries audio only.
    pub fn is_audio(&self) -> (r: bool)
        ensures
            r == (*self == FormatType::Audio),
    {
        matches!(self, FormatType::Audio)
    }

    /// Whether the format is a storyboard.
    pub fn is_storyboard(&self) -> (r: bool)
        ensures
            r == (*self == FormatType::Storyboard),
    {
        matches!(self, FormatType::Storyboard)
    }

    /// Whether the format is a manifest.
    pub fn is_manifest(&self) -> (r: bool)
        ensures
            r == (*self == FormatType::Manifest),
    {
        matches!(self, FormatType::Manifest)
    }

    /// Whether a file of this kind is played as it is, and so gets its tags right
    /// after the download: audio with video, or audio alone. Other kinds get theirs
    /// once they are combined.
    pub fn is_standalone(&self) -> (r: bool)
        ensures
            r == (*self == FormatType::AudioVideo || *self == FormatType::Audio),
    {
        self.is_audio_and_video() || self.is_audio()
    }

    /// The kind as it is written.
    pub open spec fn spec_name(self) -> Seq<char> {
        match self {
            FormatType::Audio => "Audio"@,
            FormatType::Video => "Video"@,
            FormatType::AudioVideo => "AudioVideo"@,
            FormatType::Manifest => "Manifest"@,
            FormatType::Storyboard => "Storyboard"@,
            FormatType::Unknown => "Unknown"@,
        }
    }

    /// The kind as it is written.
    pub fn name(&self) -> (r: &'static str)
        ensures
            r@ == self.spec_name(),
    {
        match self {
            FormatType::Audio => "Audio",
            FormatType::Video => "Video",
            FormatType::AudioVideo => "AudioVideo",
            FormatType::Manifest => "Manifest",
            FormatType::Storyboard => "Storyboard",
            FormatType::Unknown => "Unknown",
        }
    }
}

/// Codecs of a format.
#[derive(Debug)]
pub struct CodecInfo {
    pub audio_codec: Option<String>,
    pub video_codec: Option<String>,
    pub audio_ext: Extension,
    pub video_ext: Extension,
    pub audio_channels: Option<i64>,
    pub asr: Option<i64>,
}

/// Sizes of a format in bytes, exact and estimated.
#[derive(Debug, Clone, Copy, PartialEq, Eq, Hash, Structural)]
pub struct FileInfo {
    pub filesize_approx: Option<i64>,
    pub filesize: Option<i64>,
}

impl FileInfo {
    /// The size to go by: the exact size, else the estimate.
    pub fn best_known_size(&self) -> (r: Option<i64>)
        ensures
            r == if self.filesize.is_some() {
                self.filesize
            } else {
                self.filesize_approx
            },
    {
        match self.filesize {
            Some(size) => Some(size),
            None => self.filesize_approx,
        }
    }
}

/// Options of the downloader of a format.
#[derive(Debug, Clone, Copy, PartialEq, Eq, Hash, Structural)]
pub struct DownloaderOptions {
    pub http_chunk_size: i64,
}

/// Request headers to send when a format is downloaded.
#[derive(Debug)]
pub struct HttpHeaders {
    pub user_agent: String,
    pub accept: String,
    pub accept_language: String,
    pub sec_fetch_mode: String,
}

/// Where and how a format is downloaded.
#[derive(Debug)]
pub struct DownloadInfo {
    pub url: Option<String>,
    pub ext: Extension,
    pub http_headers: HttpHeaders,
    pub manifest_url: Option<String>,
    pub downloader_options: Option<DownloaderOptions>,
}

impl CodecInfo {
    /// The kind of a format with these codecs, a manifest address or not, fragments or not.
    pub fn format_type(&self, has_manifest_url: bool, has_fragments: bool) -> (r: FormatType)
        ensures
            r == FormatType::spec_classify(
                has_manifest_url,
                has_fragments,
                self.audio_codec.is_some(),
                self.video_codec.is_some(),
            ),
    {
        FormatType::classify(
            has_manifest_url,
            has_fragments,
            self.audio_codec.is_some(),
            self.video_codec.is_some(),
        )
    }
}

} // verus!
