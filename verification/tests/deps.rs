use yt_dlp::deps::{
    binary_name, Asset, BuildFetcher, GitHubFetcher, Libraries, LibraryInstaller, Release, Url,
};
use yt_dlp::error::Error;
use yt_dlp::file_system::{
    get_file_extension, last_segment, lower_extension_from, name_from, parent_from, stem,
    stem_from, try_name, try_parent, try_without_extension,
};
use yt_dlp::format::{Container, DynamicRange, Extension, FileInfo, FormatType, Protocol};
use yt_dlp::format_selector::{
    matches_audio_codec, matches_video_codec, AudioCodecPreference, VideoCodecPreference,
};
use yt_dlp::platform::{Architecture, Platform};
use yt_dlp::text::{contains, parse_u64, parse_usize, str_eq, u64_to_decimal};

fn release(names: &[&str]) -> Release {
    Release {
        tag_name: "2024.10.22".to_string(),
        assets: names
            .iter()
            .map(|n| Asset { name: n.to_string(), download_url: format!("https://dl/{}", n) })
            .collect(),
    }
}

#[test]
fn platform_and_architecture_from_names() {
    assert!(matches!(Platform::from_os_name("windows"), Platform::Windows));
    assert!(matches!(Platform::from_os_name("linux"), Platform::Linux));
    assert!(matches!(Platform::from_os_name("macos"), Platform::Mac));
    match Platform::from_os_name("freebsd") {
        Platform::Unknown(os) => assert_eq!(os, "freebsd"),
        _ => panic!("expected an unknown platform"),
    }
    assert!(matches!(Architecture::from_arch_name("x86_64"), Architecture::X64));
    assert!(matches!(Architecture::from_arch_name("x86"), Architecture::X86));
    assert!(matches!(Architecture::from_arch_name("armv7l"), Architecture::Armv7l));
    assert!(matches!(Architecture::from_arch_name("aarch64"), Architecture::Aarch64));
    match Architecture::from_arch_name("riscv64") {
        Architecture::Unknown(arch) => assert_eq!(arch, "riscv64"),
        _ => panic!("expected an unknown architecture"),
    }
}

#[test]
fn platform_and_architecture_names() {
    assert_eq!(Platform::Windows.name(), "Windows");
    assert_eq!(Platform::Linux.name(), "Linux");
    assert_eq!(Platform::Mac.name(), "MacOS");
    assert_eq!(Platform::Unknown("plan9".to_string()).name(), "Unknown: plan9");
    assert_eq!(Architecture::X64.name(), "x64");
    assert_eq!(Architecture::X86.name(), "x86");
    assert_eq!(Architecture::Armv7l.name(), "armv7l");
    assert_eq!(Architecture::Aarch64.name(), "aarch64");
    assert_eq!(Architecture::Unknown("mips".to_string()).name(), "Unknown: mips");
}

#[test]
fn error_messages() {
    assert_eq!(Error::IO("disk full".to_string()).message(), "An IO error occurred: disk full");
    assert_eq!(
        Error::Github(Platform::Linux, Architecture::X86).message(),
        "No GitHub asset found for platform Linux/x86"
    );
    assert_eq!(
        Error::Binary(Platform::Unknown("plan9".to_string()), Architecture::X64).message(),
        "No ffmpeg binary found for platform Unknown: plan9/x64"
    );
    assert_eq!(Error::Timeout(30).message(), "Operation timed out after 30s");
    assert_eq!(Error::MissingUrl("137".to_string()).message(), "Format 137 has no URL available");
    assert_eq!(
        Error::MissingFormat("audio".to_string()).message(),
        "No audio format available for video"
    );
    assert_eq!(
        Error::IncompatibleFormat("137".to_string(), "no audio".to_string()).message(),
        "Format 137 is not compatible: no audio"
    );
    assert_eq!(Error::MissingThumbnail.message(), "No thumbnail available for video");
    assert_eq!(Error::FormatNotFound("x".to_string()).message(), "Not found: x");
    assert_eq!(Error::Path("p".to_string()).message(), "An invalid path was provided: p");
    assert_eq!(Error::Unknown("u".to_string()).message(), "An unknown error occurred: u");
    assert_eq!(Error::Command("c".to_string()).message(), "Failed to execute command: c");
    assert_eq!(Error::Video("v".to_string()).message(), "Failed to fetch video: v");
    assert_eq!(
        Error::Database("d".to_string()).message(),
        "An error occurred while interacting with the database: d"
    );
    assert_eq!(
        Error::Serde("s".to_string()).message(),
        "An error occurred while parsing JSON: s"
    );
    assert_eq!(
        Error::Reqwest("r".to_string()).message(),
        "An error occurred while fetching: r"
    );
    assert_eq!(
        Error::Zip("z".to_string()).message(),
        "An error occurred while extracting the archive: z"
    );
    assert_eq!(
        Error::Runtime("j".to_string()).message(),
        "An error occurred while running the runtime: j"
    );
}

#[test]
fn transcoder_builds_by_platform() {
    let fetcher = BuildFetcher::new();
    let asset = fetcher.select_asset(&Platform::Windows, &Architecture::Aarch64).unwrap();
    assert_eq!(asset.download_url, Url::windows());
    assert_eq!(asset.name, "ffmpeg-release-essentials.zip");
    let asset = fetcher.select_asset(&Platform::Mac, &Architecture::X64).unwrap();
    assert_eq!(asset.download_url, "https://www.osxexperts.net/ffmpeg71intel.zip");
    assert_eq!(asset.name, "ffmpeg71intel.zip");
    let asset = fetcher.select_asset(&Platform::Mac, &Architecture::Aarch64).unwrap();
    assert_eq!(asset.name, "ffmpeg71arm.zip");
    for (arch, tag) in [
        (Architecture::X64, "amd64"),
        (Architecture::X86, "i686"),
        (Architecture::Armv7l, "armhf"),
        (Architecture::Aarch64, "arm64"),
    ] {
        let asset = fetcher.select_asset(&Platform::Linux, &arch).unwrap();
        assert_eq!(
            asset.download_url,
            format!("https://johnvansickle.com/ffmpeg/releases/ffmpeg-release-{}-static.tar.xz", tag)
        );
        assert_eq!(asset.name, format!("ffmpeg-release-{}-static.tar.xz", tag));
    }
    assert!(fetcher.select_asset(&Platform::Mac, &Architecture::X86).is_none());
    assert!(fetcher
        .select_asset(&Platform::Linux, &Architecture::Unknown("mips".to_string()))
        .is_none());
    assert!(fetcher
        .select_asset(&Platform::Unknown("plan9".to_string()), &Architecture::X64)
        .is_none());
}

#[test]
fn transcoder_build_or_error() {
    let fetcher = BuildFetcher::new();
    let wanted = fetcher
        .fetch_binary_for_platform(Platform::Linux, Architecture::X64)
        .ok()
        .unwrap();
    assert_eq!(wanted.name, "ffmpeg-release-amd64-static.tar.xz");
    assert_eq!(wanted.url, Url::linux("amd64"));
    match fetcher.fetch_binary_for_platform(Platform::Mac, Architecture::Armv7l) {
        Err(Error::Binary(Platform::Mac, Architecture::Armv7l)) => {}
        _ => panic!("expected Error::Binary"),
    }
}

#[test]
fn extraction_by_platform() {
    let fetcher = BuildFetcher::new();
    let e = fetcher.get_extraction_info(&Platform::Windows, &Architecture::X64).unwrap();
    assert_eq!(e.executable_path, "ffmpeg-7.1.1-essentials_build/bin/ffmpeg.exe");
    assert_eq!(e.extracted_dir, None);
    assert_eq!(e.binary_extension, "exe");
    assert_eq!(binary_name(&e), "ffmpeg.exe");
    let e = fetcher.get_extraction_info(&Platform::Mac, &Architecture::X86).unwrap();
    assert_eq!(e.executable_path, "ffmpeg");
    assert_eq!(e.extracted_dir, None);
    assert_eq!(binary_name(&e), "ffmpeg");
    let e = fetcher.get_extraction_info(&Platform::Linux, &Architecture::Aarch64).unwrap();
    assert_eq!(e.extracted_dir, Some("ffmpeg-7.0.2-arm64-static".to_string()));
    assert_eq!(e.binary_extension, "");
    assert!(fetcher
        .get_extraction_info(&Platform::Linux, &Architecture::Unknown("mips".to_string()))
        .is_none());
}

#[test]
fn release_asset_by_platform() {
    let r = release(&[
        "SHA2-256SUMS",
        "yt-dlp",
        "yt-dlp.exe",
        "yt-dlp_linux",
        "yt-dlp_linux_aarch64",
        "yt-dlp_linux_armv7l",
        "yt-dlp_macos",
        "yt-dlp_x86.exe",
    ]);
    let pick = |p: Platform, a: Architecture| {
        GitHubFetcher::select_asset(&p, &a, &r).map(|asset| asset.name.clone())
    };
    assert_eq!(pick(Platform::Windows, Architecture::X64), Some("yt-dlp.exe".to_string()));
    assert_eq!(pick(Platform::Windows, Architecture::X86), Some("yt-dlp_x86.exe".to_string()));
    assert_eq!(pick(Platform::Linux, Architecture::X64), Some("yt-dlp_linux".to_string()));
    assert_eq!(
        pick(Platform::Linux, Architecture::Armv7l),
        Some("yt-dlp_linux_armv7l".to_string())
    );
    assert_eq!(
        pick(Platform::Linux, Architecture::Aarch64),
        Some("yt-dlp_linux_aarch64".to_string())
    );
    assert_eq!(pick(Platform::Mac, Architecture::Aarch64), Some("yt-dlp_macos".to_string()));
    assert_eq!(pick(Platform::Linux, Architecture::X86), None);
    assert_eq!(pick(Platform::Windows, Architecture::Aarch64), None);
    assert_eq!(pick(Platform::Unknown("plan9".to_string()), Architecture::X64), None);
}

#[test]
fn release_asset_is_the_first_whose_name_contains_the_pattern() {
    let r = release(&["yt-dlp_linux_aarch64", "yt-dlp_linux"]);
    let asset = GitHubFetcher::select_asset(&Platform::Linux, &Architecture::X64, &r).unwrap();
    assert_eq!(asset.name, "yt-dlp_linux_aarch64");
    assert_eq!(asset.download_url, "https://dl/yt-dlp_linux_aarch64");
    assert!(GitHubFetcher::select_asset(&Platform::Linux, &Architecture::X64, &release(&[]))
        .is_none());
}

#[test]
fn wanted_release_or_error() {
    let r = release(&["yt-dlp_macos"]);
    let wanted = GitHubFetcher::wanted_release(Platform::Mac, Architecture::X64, &r).ok().unwrap();
    assert_eq!(wanted.name, "yt-dlp_macos");
    assert_eq!(wanted.url, "https://dl/yt-dlp_macos");
    match GitHubFetcher::wanted_release(Platform::Linux, Architecture::X64, &r) {
        Err(Error::Github(Platform::Linux, Architecture::X64)) => {}
        _ => panic!("expected Error::Github"),
    }
}

#[test]
fn latest_release_address() {
    let fetcher = GitHubFetcher::new("yt-dlp", "yt-dlp");
    assert_eq!(
        fetcher.latest_release_url(),
        "https://api.github.com/repos/yt-dlp/yt-dlp/releases/latest"
    );
}

#[test]
fn installer_and_libraries_hold_their_paths() {
    assert_eq!(LibraryInstaller::new("libs".to_string()).destination, "libs");
    let libraries = Libraries::new("libs/yt-dlp".to_string(), "libs/ffmpeg".to_string());
    assert_eq!(libraries.youtube, "libs/yt-dlp");
    assert_eq!(libraries.ffmpeg, "libs/ffmpeg");
}

#[test]
fn names_of_paths() {
    assert_eq!(try_name("a/b/video.mp4").ok(), Some("video.mp4".to_string()));
    assert_eq!(try_name("video.mp4").ok(), Some("video.mp4".to_string()));
    assert_eq!(try_name("/video").ok(), Some("video".to_string()));
    assert_eq!(try_name("usr/bin/").ok(), Some("bin".to_string()));
    assert_eq!(try_name("a/.").ok(), Some("a".to_string()));
    assert_eq!(try_name("a//b").ok(), Some("b".to_string()));
    assert_eq!(try_name("a/...").ok(), Some("...".to_string()));
    for path in ["", "/", "a/..", ".."] {
        match try_name(path) {
            Err(Error::Path(text)) => assert_eq!(text, "Failed to get name"),
            _ => panic!("expected Error::Path"),
        }
    }
}

#[test]
fn name_from_the_final_component() {
    assert_eq!(name_from(Some("bin".to_string())).ok(), Some("bin".to_string()));
    match name_from(None) {
        Err(Error::Path(text)) => assert_eq!(text, "Failed to get name"),
        _ => panic!("expected Error::Path"),
    }
    assert_eq!(last_segment("https://host/a/b.zip"), "b.zip");
    assert_eq!(last_segment("plain"), "plain");
    assert_eq!(last_segment("a/"), "");
    assert_eq!(last_segment(""), "");
}

#[test]
fn names_without_extension_stop_at_the_first_dot() {
    assert_eq!(try_without_extension("a/video.mp4").ok(), Some("video".to_string()));
    assert_eq!(try_without_extension("archive.tar.gz").ok(), Some("archive".to_string()));
    assert_eq!(try_without_extension("plain").ok(), Some("plain".to_string()));
    assert_eq!(try_without_extension(".hidden").ok(), Some("".to_string()));
    assert_eq!(try_without_extension("dir/").ok(), Some("dir".to_string()));
    assert!(matches!(try_without_extension("/"), Err(Error::Path(_))));
    assert_eq!(stem("archive.tar.gz"), "archive");
    assert_eq!(stem("plain"), "plain");
    assert_eq!(stem(".x"), "");
    assert_eq!(stem(""), "");
    assert_eq!(stem_from(Some("a.b".to_string())).ok(), Some("a".to_string()));
    assert!(matches!(stem_from(None), Err(Error::Path(_))));
}

#[test]
fn parents_of_paths() {
    assert_eq!(try_parent("a/b/c.mp4").ok(), Some("a/b".to_string()));
    assert_eq!(try_parent("/a").ok(), Some("/".to_string()));
    assert_eq!(try_parent("a").ok(), Some("".to_string()));
    assert_eq!(try_parent("foo/").ok(), Some("".to_string()));
    assert_eq!(try_parent("a//b").ok(), Some("a".to_string()));
    for path in ["", "/"] {
        match try_parent(path) {
            Err(Error::Path(text)) => assert_eq!(text, "Failed to get parent"),
            _ => panic!("expected Error::Path"),
        }
    }
    assert_eq!(parent_from(Some("a/b".to_string())).ok(), Some("a/b".to_string()));
    assert!(matches!(parent_from(None), Err(Error::Path(_))));
}

#[test]
fn extensions_of_paths() {
    assert_eq!(get_file_extension("a/b.Mp4").ok(), Some("mp4".to_string()));
    assert_eq!(get_file_extension("a.tar.gz").ok(), Some("gz".to_string()));
    assert_eq!(get_file_extension("a.").ok(), Some("".to_string()));
    assert_eq!(get_file_extension("song.MP3").ok(), Some("mp3".to_string()));
    assert_eq!(get_file_extension("été.ÄÖ").ok(), Some("äö".to_string()));
    for path in ["a", ".bashrc", "a.b/c", "..", ""] {
        match get_file_extension(path) {
            Err(Error::Path(text)) => assert_eq!(text, "File has no extension"),
            _ => panic!("expected Error::Path"),
        }
    }
    assert_eq!(lower_extension_from(Some("JPG".to_string())).ok(), Some("jpg".to_string()));
    assert!(matches!(lower_extension_from(None), Err(Error::Path(_))));
}

#[test]
fn video_codecs_match_preferences() {
    assert!(matches_video_codec("vp9", &VideoCodecPreference::VP9));
    assert!(matches_video_codec("VP9.2", &VideoCodecPreference::VP9));
    assert!(!matches_video_codec("vp8", &VideoCodecPreference::VP9));
    assert!(matches_video_codec("avc1.64001F", &VideoCodecPreference::AVC1));
    assert!(matches_video_codec("H264", &VideoCodecPreference::AVC1));
    assert!(matches_video_codec("h.264 high", &VideoCodecPreference::AVC1));
    assert!(!matches_video_codec("h265", &VideoCodecPreference::AVC1));
    assert!(matches_video_codec("av01.0.08M.08", &VideoCodecPreference::AV1));
    assert!(matches_video_codec("AV1", &VideoCodecPreference::AV1));
    assert!(!matches_video_codec("avc1", &VideoCodecPreference::AV1));
    assert!(matches_video_codec("hev1.1.6", &VideoCodecPreference::Custom("HEV1".to_string())));
    assert!(!matches_video_codec("hev1.1.6", &VideoCodecPreference::Custom("hvc1".to_string())));
    assert!(matches_video_codec("anything", &VideoCodecPreference::Custom(String::new())));
    assert!(matches_video_codec("", &VideoCodecPreference::Any));
    assert!(!matches_video_codec("", &VideoCodecPreference::VP9));
}

#[test]
fn audio_codecs_match_preferences() {
    assert!(matches_audio_codec("opus", &AudioCodecPreference::Opus));
    assert!(matches_audio_codec("OPUS", &AudioCodecPreference::Opus));
    assert!(!matches_audio_codec("vorbis", &AudioCodecPreference::Opus));
    assert!(matches_audio_codec("mp4a.40.2", &AudioCodecPreference::AAC));
    assert!(matches_audio_codec("AAC-LC", &AudioCodecPreference::AAC));
    assert!(!matches_audio_codec("mp3", &AudioCodecPreference::AAC));
    assert!(matches_audio_codec("mp3", &AudioCodecPreference::MP3));
    assert!(!matches_audio_codec("mp4a", &AudioCodecPreference::MP3));
    assert!(matches_audio_codec("FLAC", &AudioCodecPreference::Custom("flac".to_string())));
    assert!(!matches_audio_codec("alac", &AudioCodecPreference::Custom("flac".to_string())));
    assert!(matches_audio_codec("whatever", &AudioCodecPreference::Any));
}

#[test]
fn codec_preferences_compare_by_variant_and_name() {
    assert!(VideoCodecPreference::VP9.same(&VideoCodecPreference::VP9));
    assert!(!VideoCodecPreference::VP9.same(&VideoCodecPreference::AV1));
    assert!(!VideoCodecPreference::Any.same(&VideoCodecPreference::Custom(String::new())));
    assert!(VideoCodecPreference::Custom("x".to_string())
        .same(&VideoCodecPreference::Custom("x".to_string())));
    assert!(!VideoCodecPreference::Custom("x".to_string())
        .same(&VideoCodecPreference::Custom("y".to_string())));
    assert!(AudioCodecPreference::MP3.same(&AudioCodecPreference::MP3));
    assert!(!AudioCodecPreference::MP3.same(&AudioCodecPreference::AAC));
    assert!(AudioCodecPreference::Custom("x".to_string())
        .duplicate()
        .same(&AudioCodecPreference::Custom("x".to_string())));
}

#[test]
fn format_kinds() {
    assert!(FormatType::AudioVideo.is_audio_and_video());
    assert!(!FormatType::Video.is_audio_and_video());
    assert!(FormatType::Video.is_video());
    assert!(!FormatType::AudioVideo.is_video());
    assert!(FormatType::Audio.is_audio());
    assert!(!FormatType::AudioVideo.is_audio());
    assert!(FormatType::Storyboard.is_storyboard());
    assert!(!FormatType::Manifest.is_storyboard());
    assert!(FormatType::Manifest.is_manifest());
    assert!(!FormatType::Unknown.is_manifest());
    assert_eq!(FormatType::default(), FormatType::Unknown);
    assert_eq!(Extension::default(), Extension::Unknown);
    assert_eq!(Container::default(), Container::Unknown);
    assert_eq!(Protocol::default(), Protocol::Unknown);
    assert_eq!(DynamicRange::default(), DynamicRange::Unknown);
}

#[test]
fn format_kind_from_what_a_format_holds() {
    assert_eq!(FormatType::classify(true, true, true, true), FormatType::Manifest);
    assert_eq!(FormatType::classify(false, true, true, true), FormatType::Storyboard);
    assert_eq!(FormatType::classify(false, false, true, true), FormatType::AudioVideo);
    assert_eq!(FormatType::classify(false, false, true, false), FormatType::Audio);
    assert_eq!(FormatType::classify(false, false, false, true), FormatType::Video);
    assert_eq!(FormatType::classify(false, false, false, false), FormatType::Manifest);
}

#[test]
fn names_of_format_kinds() {
    assert_eq!(Extension::M4A.name(), "m4a");
    assert_eq!(Extension::Absent.name(), "none");
    assert_eq!(Container::Webm.name(), "webm");
    assert_eq!(Protocol::M3U8Native.name(), "hls");
    assert_eq!(DynamicRange::HDR.name(), "HDR");
    assert_eq!(FormatType::AudioVideo.name(), "AudioVideo");
    let info = FileInfo { filesize_approx: Some(10), filesize: None };
    assert_eq!(info.best_known_size(), Some(10));
    let info = FileInfo { filesize_approx: Some(10), filesize: Some(12) };
    assert_eq!(info.best_known_size(), Some(12));
}

#[test]
fn unsigned_numbers_from_text() {
    assert_eq!(parse_u64(b"0"), Some(0));
    assert_eq!(parse_u64(b"007"), Some(7));
    assert_eq!(parse_u64(b"+42"), Some(42));
    assert_eq!(parse_u64(b"18446744073709551615"), Some(u64::MAX));
    assert_eq!(parse_u64(b"18446744073709551616"), None);
    assert_eq!(parse_u64(b"99999999999999999999"), None);
    assert_eq!(parse_u64(b""), None);
    assert_eq!(parse_u64(b"+"), None);
    assert_eq!(parse_u64(b"-1"), None);
    assert_eq!(parse_u64(b"++1"), None);
    assert_eq!(parse_u64(b"1+"), None);
    assert_eq!(parse_u64(b"12a"), None);
    assert_eq!(parse_u64(b" 12"), None);
    assert_eq!(parse_usize(b"12"), Some(12));
    assert_eq!(parse_usize(b"x"), None);
}

#[test]
fn numbers_to_text() {
    assert_eq!(u64_to_decimal(0), "0");
    assert_eq!(u64_to_decimal(9), "9");
    assert_eq!(u64_to_decimal(10), "10");
    assert_eq!(u64_to_decimal(1234567890), "1234567890");
    assert_eq!(u64_to_decimal(u64::MAX), "18446744073709551615");
    for n in [0u64, 1, 99, 100, 65535, 1 << 40, u64::MAX] {
        assert_eq!(parse_u64(u64_to_decimal(n).as_bytes()), Some(n));
    }
    assert!(str_eq("abc", "abc"));
    assert!(!str_eq("abc", "abd"));
}

#[test]
fn substring_search() {
    assert!(contains("yt-dlp_linux_aarch64", "yt-dlp_linux"));
    assert!(contains("abc", ""));
    assert!(contains("", ""));
    assert!(!contains("", "a"));
    assert!(contains("abc", "abc"));
    assert!(contains("abc", "c"));
    assert!(!contains("abc", "abcd"));
    assert!(!contains("abc", "ac"));
    assert!(contains("aab", "ab"));
    assert!(contains("héllo wörld", "o wö"));
    assert!(!contains("héllo", "hello"));
}

#[test]
fn standalone_kinds_are_tagged_at_once() {
    assert!(FormatType::AudioVideo.is_standalone());
    assert!(FormatType::Audio.is_standalone());
    assert!(!FormatType::Video.is_standalone());
    assert!(!FormatType::Manifest.is_standalone());
    assert!(!FormatType::Storyboard.is_standalone());
    assert!(!FormatType::Unknown.is_standalone());
}
