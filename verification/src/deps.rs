//! Choice of the release asset of a helper program for a platform.

use vstd::prelude::*;
use vstd::string::*;
use crate::error::Error;
use crate::file_system::{after_last_slash, last_segment};
use crate::platform::{Architecture, Platform};
use crate::table::{first_match, lemma_first_match, lemma_no_match};
use crate::text::{contains, has_substring};

verus! {

/// A published release of a program.
#[derive(Debug)]
pub struct Release {
    /// The release's tag.
    pub tag_name: String,
    /// The files the release offers.
    pub assets: Vec<Asset>,
}

/// One file of a release.
#[derive(Debug)]
pub struct Asset {
    /// The file's name.
    pub name: String,
    /// Where the file can be downloaded.
    pub download_url: String,
}

/// The file chosen for a platform.
#[derive(Debug)]
pub struct WantedRelease {
    /// Where the file can be downloaded.
    pub url: String,
    /// The file's name.
    pub name: String,
}

/// Where a helper program is installed.
#[derive(Debug)]
pub struct LibraryInstaller {
    /// The directory to install into.
    pub destination: String,
}

impl LibraryInstaller {
    /// An installer into `destination`.
    pub fn new(destination: String) -> (r: LibraryInstaller)
        ensures
            r.destination == destination,
    {
        LibraryInstaller { destination }
    }
}

/// The paths of the helper programs.
#[derive(Debug)]
pub struct Libraries {
    /// The path of the metadata extractor.
    pub youtube: String,
    /// The path of the transcoder.
    pub ffmpeg: String,
}

impl Libraries {
    /// The helper programs at these paths.
    pub fn new(youtube: String, ffmpeg: String) -> (r: Libraries)
        ensures
            r.youtube == youtube,
            r.ffmpeg == ffmpeg,
    {
        Libraries { youtube, ffmpeg }
    }
}

impl Asset {
    /// A copy of the asset.
    pub fn duplicate(&self) -> (r: Asset)
        ensures
            r == *self,
    {
        Asset { name: self.name.clone(), download_url: self.download_url.clone() }
    }
}

/// The download addresses of the transcoder builds.
#[derive(Debug)]
pub struct Url;

impl Url {
    /// The build for Windows.
    pub fn windows() -> (r: &'static str)
        ensures
            r@ == "https://www.gyan.dev/ffmpeg/builds/ffmpeg-release-essentials.zip"@,
    {
        "https://www.gyan.dev/ffmpeg/builds/ffmpeg-release-essentials.zip"
    }

    /// The build for macOS on Intel processors.
    pub fn macos_intel() -> (r: &'static str)
        ensures
            r@ == "https://www.osxexperts.net/ffmpeg71intel.zip"@,
    {
        "https://www.osxexperts.net/ffmpeg71intel.zip"
    }

    /// The build for macOS on ARM processors.
    pub fn macos_arm() -> (r: &'static str)
        ensures
            r@ == "https://www.osxexperts.net/ffmpeg71arm.zip"@,
    {
        "https://www.osxexperts.net/ffmpeg71arm.zip"
    }

    /// The static build for Linux on the architecture the builder calls `arch`.
    pub fn linux(arch: &str) -> (r: String)
        ensures
            r@ == "https://johnvansickle.com/ffmpeg/releases/ffmpeg-release-"@ + arch@
                + "-static.tar.xz"@,
    {
        String::from_str("https://johnvansickle.com/ffmpeg/releases/ffmpeg-release-").concat(
            arch,
        ).concat("-static.tar.xz")
    }
}

/// The address of the transcoder build for a platform, if there is one.
pub open spec fn build_url(platform: Platform, architecture: Architecture) -> Option<Seq<char>> {
    match (platform, architecture) {
        (Platform::Windows, _) => Some(
            "https://www.gyan.dev/ffmpeg/builds/ffmpeg-release-essentials.zip"@,
        ),
        (Platform::Mac, Architecture::X64) => Some("https://www.osxexperts.net/ffmpeg71intel.zip"@),
        (Platform::Mac, Architecture::Aarch64) => Some(
            "https://www.osxexperts.net/ffmpeg71arm.zip"@,
        ),
        (Platform::Linux, Architecture::X64) => Some(linux_build_url("amd64"@)),
        (Platform::Linux, Architecture::X86) => Some(linux_build_url("i686"@)),
        (Platform::Linux, Architecture::Armv7l) => Some(linux_build_url("armhf"@)),
        (Platform::Linux, Architecture::Aarch64) => Some(linux_build_url("arm64"@)),
        _ => None,
    }
}

/// The address of the static Linux build for `arch`.
pub open spec fn linux_build_url(arch: Seq<char>) -> Seq<char> {
    "https://johnvansickle.com/ffmpeg/releases/ffmpeg-release-"@ + arch + "-static.tar.xz"@
}

/// How to find the transcoder in its unpacked archive.
#[derive(Debug)]
pub struct Extraction {
    /// Path of the executable inside the archive.
    pub executable_path: String,
    /// Directory the archive unpacks into, if it has one of its own.
    pub extracted_dir: Option<String>,
    /// Extension of the executable, empty where it has none.
    pub binary_extension: String,
}

impl Extraction {
    /// The three texts of an extraction: executable path, directory, extension.
    pub open spec fn parts(self) -> (Seq<char>, Option<Seq<char>>, Seq<char>) {
        (
            self.executable_path@,
            match self.extracted_dir {
                Some(d) => Some(d@),
                None => None,
            },
            self.binary_extension@,
        )
    }
}

/// Where the executable lies in the unpacked archive for a platform: its path, the
/// directory the archive unpacks into, and the executable's extension.
pub open spec fn extraction_for(platform: Platform, architecture: Architecture) -> Option<
    (Seq<char>, Option<Seq<char>>, Seq<char>),
> {
    match (platform, architecture) {
        (Platform::Windows, _) => Some(
            ("ffmpeg-7.1.1-essentials_build/bin/ffmpeg.exe"@, None, "exe"@),
        ),
        (Platform::Mac, _) => Some(("ffmpeg"@, None, ""@)),
        (Platform::Linux, Architecture::X64) => Some(
            ("ffmpeg"@, Some("ffmpeg-7.0.2-amd64-static"@), ""@),
        ),
        (Platform::Linux, Architecture::X86) => Some(
            ("ffmpeg"@, Some("ffmpeg-7.0.2-i686-static"@), ""@),
        ),
        (Platform::Linux, Architecture::Armv7l) => Some(
            ("ffmpeg"@, Some("ffmpeg-7.0.2-armhf-static"@), ""@),
        ),
        (Platform::Linux, Architecture::Aarch64) => Some(
            ("ffmpeg"@, Some("ffmpeg-7.0.2-arm64-static"@), ""@),
        ),
        _ => None,
    }
}

/// Chooses the transcoder build for a platform.
#[derive(Clone, Copy, Debug)]
pub struct BuildFetcher;

fn asset_at(url: String) -> (r: Asset)
    ensures
        r.download_url == url,
        r.name@ == after_last_slash(url@),
{
    let name = last_segment(url.as_str());
    Asset { name, download_url: url }
}

impl BuildFetcher {
    /// A chooser of transcoder builds.
    pub fn new() -> (r: BuildFetcher) {
        BuildFetcher
    }

    /// The transcoder build for a platform: its address and, as its name, the last
    /// component of the address. None where no build exists.
    pub fn select_asset(&self, platform: &Platform, architecture: &Architecture) -> (r: Option<
        Asset,
    >)
        ensures
            match build_url(*platform, *architecture) {
                Some(url) => r matches Some(asset) && asset.download_url@ == url && asset.name@
                    == after_last_slash(url),
                None => r.is_none(),
            },
    {
        match (platform, architecture) {
            (Platform::Windows, _) => Some(asset_at(String::from_str(Url::windows()))),
            (Platform::Mac, Architecture::X64) => Some(
                asset_at(String::from_str(Url::macos_intel())),
            ),
            (Platform::Mac, Architecture::Aarch64) => Some(
                asset_at(String::from_str(Url::macos_arm())),
            ),
            (Platform::Linux, Architecture::X64) => Some(asset_at(Url::linux("amd64"))),
            (Platform::Linux, Architecture::X86) => Some(asset_at(Url::linux("i686"))),
            (Platform::Linux, Architecture::Armv7l) => Some(asset_at(Url::linux("armhf"))),
            (Platform::Linux, Architecture::Aarch64) => Some(asset_at(Url::linux("arm64"))),
            _ => None,
        }
    }

    /// The transcoder build to download for a platform, or the error that names the
    /// platform where no build exists.
    pub fn fetch_binary_for_platform(&self, platform: Platform, architecture: Architecture) -> (r:
        Result<WantedRelease, Error>)
        ensures
            match build_url(platform, architecture) {
                Some(url) => r matches Ok(wanted) && wanted.url@ == url && wanted.name@
                    == after_last_slash(url),
                None => r matches Err(Error::Binary(p, a)) && p == platform && a == architecture,
            },
    {
        match self.select_asset(&platform, &architecture) {
            Some(asset) => Ok(WantedRelease { url: asset.download_url, name: asset.name }),
            None => Err(Error::Binary(platform, architecture)),
        }
    }

    /// Where the executable lies in the unpacked archive for a platform.
    pub fn get_extraction_info(&self, platform: &Platform, architecture: &Architecture) -> (r:
        Option<Extraction>)
        ensures
            match extraction_for(*platform, *architecture) {
                Some(parts) => r matches Some(e) && e.parts() == parts,
                None => r.is_none(),
            },
    {
        match (platform, architecture) {
            (Platform::Windows, _) => Some(
                Extraction {
                    executable_path: String::from_str(
                        "ffmpeg-7.1.1-essentials_build/bin/ffmpeg.exe",
                    ),
                    extracted_dir: None,
                    binary_extension: String::from_str("exe"),
                },
            ),
            (Platform::Mac, _) => Some(
                Extraction {
                    executable_path: String::from_str("ffmpeg"),
                    extracted_dir: None,
                    binary_extension: String::from_str(""),
                },
            ),
            (Platform::Linux, Architecture::X64) => Some(
                Extraction {
                    executable_path: String::from_str("ffmpeg"),
                    extracted_dir: Some(String::from_str("ffmpeg-7.0.2-amd64-static")),
                    binary_extension: String::from_str(""),
                },
            ),
            (Platform::Linux, Architecture::X86) => Some(
                Extraction {
                    executable_path: String::from_str("ffmpeg"),
                    extracted_dir: Some(String::from_str("ffmpeg-7.0.2-i686-static")),
                    binary_extension: String::from_str(""),
                },
            ),
            (Platform::Linux, Architecture::Armv7l) => Some(
                Extraction {
                    executable_path: String::from_str("ffmpeg"),
                    extracted_dir: Some(String::from_str("ffmpeg-7.0.2-armhf-static")),
                    binary_extension: String::from_str(""),
                },
            ),
            (Platform::Linux, Architecture::Aarch64) => Some(
                Extraction {
                    executable_path: String::from_str("ffmpeg"),
                    extracted_dir: Some(String::from_str("ffmpeg-7.0.2-arm64-static")),
                    binary_extension: String::from_str(""),
                },
            ),
            _ => None,
        }
    }
}

/// Name of the executable that an extraction yields: `ffmpeg`, with the extension
/// where there is one.
pub fn binary_name(extraction: &Extraction) -> (r: String)
    ensures
        r@ == if extraction.binary_extension@.len() > 0 {
            "ffmpeg."@ + extraction.binary_extension@
        } else {
            "ffmpeg"@
        },
{
    if extraction.binary_extension.as_str().unicode_len() > 0 {
        String::from_str("ffmpeg.").concat(extraction.binary_extension.as_str())
    } else {
        String::from_str("ffmpeg")
    }
}

/// Chooses the release asset of the metadata extractor from a repository's releases.
#[derive(Debug)]
pub struct GitHubFetcher {
    owner: String,
    repo: String,
}

/// What the name of the asset for a platform contains, if the platform has one.
pub open spec fn asset_pattern(platform: Platform, architecture: Architecture) -> Option<
    Seq<char>,
> {
    match (platform, architecture) {
        (Platform::Windows, Architecture::X64) => Some("yt-dlp.exe"@),
        (Platform::Windows, Architecture::X86) => Some("yt-dlp_x86.exe"@),
        (Platform::Linux, Architecture::X64) => Some("yt-dlp_linux"@),
        (Platform::Linux, Architecture::Armv7l) => Some("yt-dlp_linux_armv7l"@),
        (Platform::Linux, Architecture::Aarch64) => Some("yt-dlp_linux_aarch64"@),
        (Platform::Mac, _) => Some("yt-dlp_macos"@),
        _ => None,
    }
}

/// The condition "the name contains `pattern`".
pub open spec fn name_contains(pattern: Seq<char>) -> spec_fn(Asset) -> bool {
    |asset: Asset| has_substring(asset.name@, pattern)
}

fn pattern_for(platform: &Platform, architecture: &Architecture) -> (r: Option<&'static str>)
    ensures
        match asset_pattern(*platform, *architecture) {
            Some(p) => r matches Some(s) && s@ == p,
            None => r.is_none(),
        },
{
    match (platform, architecture) {
        (Platform::Windows, Architecture::X64) => Some("yt-dlp.exe"),
        (Platform::Windows, Architecture::X86) => Some("yt-dlp_x86.exe"),
        (Platform::Linux, Architecture::X64) => Some("yt-dlp_linux"),
        (Platform::Linux, Architecture::Armv7l) => Some("yt-dlp_linux_armv7l"),
        (Platform::Linux, Architecture::Aarch64) => Some("yt-dlp_linux_aarch64"),
        (Platform::Mac, _) => Some("yt-dlp_macos"),
        _ => None,
    }
}

impl GitHubFetcher {
    /// The repository's owner.
    pub closed spec fn spec_owner(&self) -> Seq<char> {
        self.owner@
    }

    /// The repository's name.
    pub closed spec fn spec_repo(&self) -> Seq<char> {
        self.repo@
    }

    /// A chooser of assets from the releases of `owner/repo`.
    pub fn new(owner: &str, repo: &str) -> (r: GitHubFetcher)
        ensures
            r.spec_owner() == owner@,
            r.spec_repo() == repo@,
    {
        GitHubFetcher { owner: String::from_str(owner), repo: String::from_str(repo) }
    }

    /// The address that describes the repository's latest release.
    pub fn latest_release_url(&self) -> (r: String)
        ensures
            r@ == "https://api.github.com/repos/"@ + self.spec_owner() + "/"@ + self.spec_repo()
                + "/releases/latest"@,
    {
        String::from_str("https://api.github.com/repos/").concat(self.owner.as_str()).concat(
            "/",
        ).concat(self.repo.as_str()).concat("/releases/latest")
    }

    /// The first asset of the release whose name contains the pattern of the platform.
    pub fn select_asset<'a>(
        platform: &Platform,
        architecture: &Architecture,
        release: &'a Release,
    ) -> (r: Option<&'a Asset>)
        ensures
            match asset_pattern(*platform, *architecture) {
                Some(pattern) => match first_match(release.assets@, name_contains(pattern)) {
                    Some(asset) => r matches Some(found) && *found == asset,
                    None => r.is_none(),
                },
                None => r.is_none(),
            },
    {
        let pattern = match pattern_for(platform, architecture) {
            Some(p) => p,
            None => {
                return None;
            },
        };
        let ghost pred = name_contains(pattern@);
        let mut k: usize = 0;
        while k < release.assets.len()
            invariant
                k <= release.assets@.len(),
                pred == name_contains(pattern@),
                asset_pattern(*platform, *architecture) == Some(pattern@),
                forall|j: int| 0 <= j < k ==> !pred(#[trigger] release.assets@[j]),
            decreases release.assets@.len() - k,
        {
            if contains(release.assets[k].name.as_str(), pattern) {
                proof {
                    lemma_first_match(release.assets@, pred, k as int);
                }
                return Some(&release.assets[k]);
            }
            k = k + 1;
        }
        proof {
            lemma_no_match(release.assets@, pred);
        }
        None
    }

    /// The asset to download for a platform from `release`, or the error that names
    /// the platform where the release has none.
    pub fn wanted_release(platform: Platform, architecture: Architecture, release: &Release) -> (r:
        Result<WantedRelease, Error>)
        ensures
            match asset_pattern(platform, architecture) {
                Some(pattern) => match first_match(release.assets@, name_contains(pattern)) {
                    Some(asset) => r matches Ok(wanted) && wanted.name == asset.name && wanted.url
                        == asset.download_url,
                    None => r matches Err(Error::Github(p, a)) && p == platform && a
                        == architecture,
                },
                None => r matches Err(Error::Github(p, a)) && p == platform && a == architecture,
            },
    {
        match Self::select_asset(&platform, &architecture, release) {
            Some(asset) => Ok(
                WantedRelease { name: asset.name.clone(), url: asset.download_url.clone() },
            ),
            None => Err(Error::Github(platform, architecture)),
        }
    }
}

} // verus!
