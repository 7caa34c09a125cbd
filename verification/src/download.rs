//! Fetching a packaged MKL where none is installed.
//!
//! An archive is fetched in steps: look whether the destination already
//! holds the libraries; if not, download the archive; check what came;
//! decompress it; unpack it; look again. The steps that touch the network
//! and the disk are the caller's: this module decides what is to be done
//! next, one [`FetchRequest`] at a time.

use crate::codec::{decompress, zstd_decoded};
use crate::components::{as_library_filename, library_filename_spec};
use crate::config::LinkType;
use crate::platform::Platform;
use crate::seek::{join_path, path_under};
use crate::text::{decimal, push_decimal, push_str, string_of};
use vstd::prelude::*;

verus! {

/// The year of the MKL version that is fetched by default.
pub const DEFAULT_YEAR: u32 = 2020;

/// The update of the MKL version that is fetched by default.
pub const DEFAULT_UPDATE: u32 = 1;

/// Where the archives are kept.
pub open spec fn base_url() -> Seq<char> {
    "https://s3-ap-northeast-1.amazonaws.com/rust-intel-mkl"@
}

/// The name of the archive of a version for a platform: the family, the
/// platform, the year and the update, with underscores between them.
pub open spec fn archive_name_spec(platform: Platform, year: u32, update: u32) -> Seq<char> {
    "mkl_"@ + platform.archive_tag_spec() + "_"@ + decimal(year as nat) + "_"@ + decimal(
        update as nat,
    ) + ".tar.zst"@
}

/// The address of an archive.
pub open spec fn url_of(remote_name: Seq<char>) -> Seq<char> {
    base_url() + "/"@ + remote_name
}

/// The file whose presence shows that an archive has been unpacked: the
/// shared core library.
pub open spec fn marker_name(platform: Platform) -> Seq<char> {
    library_filename_spec(platform, LinkType::Dynamic, "mkl_core"@)
}

/// The name of the archive of a version for a platform.
pub fn archive_name(platform: Platform, year: u32, update: u32) -> (name: String)
    ensures
        name@ == archive_name_spec(platform, year, update),
{
    let mut name: Vec<char> = Vec::new();
    push_str(&mut name, "mkl_");
    push_str(&mut name, platform.archive_tag());
    push_str(&mut name, "_");
    push_decimal(&mut name, year);
    push_str(&mut name, "_");
    push_decimal(&mut name, update);
    push_str(&mut name, ".tar.zst");
    assert(name@ =~= archive_name_spec(platform, year, update));
    string_of(name.as_slice())
}

/// The name of an archive holds no separator of paths: it is the name of a
/// file.
pub proof fn lemma_archive_name_is_plain(platform: Platform, year: u32, update: u32, on: Platform)
    ensures
        crate::text::free_of(archive_name_spec(platform, year, update), on.separators()),
{
    reveal_strlit("mkl_");
    reveal_strlit("_");
    reveal_strlit(".tar.zst");
    reveal_strlit("linux64");
    reveal_strlit("macos64");
    reveal_strlit("windows64");
    crate::text::lemma_decimal_is_digits(year as nat);
    crate::text::lemma_decimal_is_digits(update as nat);
    let name = archive_name_spec(platform, year, update);
    let seps = on.separators();
    assert forall|i: int| 0 <= i < name.len() implies !seps.contains(#[trigger] name[i]) by {
        assert(name[i] != '/' && name[i] != '\\');
    }
}

/// The Adler-32 sum of low bytes: one more than the sum of the bytes, modulo
/// 65521.
pub open spec fn adler_low(bytes: Seq<u8>) -> nat
    decreases bytes.len(),
{
    if bytes.len() == 0 {
        1
    } else {
        ((adler_low(bytes.drop_last()) + bytes.last()) % 65521) as nat
    }
}

/// The Adler-32 sum of sums: the sum of the low sums of all beginnings of
/// the bytes, modulo 65521.
pub open spec fn adler_high(bytes: Seq<u8>) -> nat
    decreases bytes.len(),
{
    if bytes.len() == 0 {
        0
    } else {
        ((adler_high(bytes.drop_last()) + adler_low(bytes)) % 65521) as nat
    }
}

/// The Adler-32 checksum of the bytes.
pub open spec fn adler32(bytes: Seq<u8>) -> nat {
    adler_high(bytes) * 65536 + adler_low(bytes)
}

/// The checksum of an archive as it came over the network.
pub fn checksum(bytes: &[u8]) -> (sum: u32)
    ensures
        sum == adler32(bytes@),
{
    let mut low: u32 = 1;
    let mut high: u32 = 0;
    let mut i: usize = 0;
    assert(bytes@.take(0) =~= Seq::<u8>::empty());
    while i < bytes.len()
        invariant
            i <= bytes.len(),
            low == adler_low(bytes@.take(i as int)),
            high == adler_high(bytes@.take(i as int)),
            low < 65521,
            high < 65521,
        decreases bytes.len() - i,
    {
        proof {
            assert(bytes@.take(i + 1).drop_last() =~= bytes@.take(i as int));
            assert(bytes@.take(i + 1).last() == bytes@[i as int]);
        }
        low = (low + bytes[i] as u32) % 65521;
        high = (high + low) % 65521;
        i = i + 1;
    }
    assert(bytes@.take(i as int) =~= bytes@);
    high * 65536 + low
}

/// An archive to fetch, as plain values.
pub struct Archive {
    pub remote_name: Seq<char>,
    pub dest_dir: Seq<char>,
    pub checksum: Option<u32>,
}

/// An archive to fetch: its name at the remote store, the directory to
/// unpack it into, and the checksum it must have, if one is known.
#[derive(Debug, Clone, PartialEq, Eq)]
pub struct ArchiveDescriptor {
    pub remote_name: String,
    pub dest_dir: String,
    pub checksum: Option<u32>,
}

impl View for ArchiveDescriptor {
    type V = Archive;

    open spec fn view(&self) -> Archive {
        Archive {
            remote_name: self.remote_name@,
            dest_dir: self.dest_dir@,
            checksum: self.checksum,
        }
    }
}

/// How far a fetch has come.
#[derive(Debug, Clone, Copy, PartialEq, Eq, Structural)]
pub enum FetchStage {
    /// Looking whether the destination is populated already.
    CheckBefore,
    /// Downloading.
    Fetching,
    /// Unpacking.
    Unpacking,
    /// Looking whether unpacking has populated the destination.
    CheckAfter,
}

/// A fetch under way, as plain values.
pub struct Fetch {
    pub archive: Archive,
    pub platform: Platform,
    pub stage: FetchStage,
}

/// A fetch under way.
#[derive(Debug, Clone, PartialEq, Eq)]
pub struct Fetcher {
    pub archive: ArchiveDescriptor,
    pub platform: Platform,
    pub stage: FetchStage,
}

impl View for Fetcher {
    type V = Fetch;

    open spec fn view(&self) -> Fetch {
        Fetch { archive: self.archive@, platform: self.platform, stage: self.stage }
    }
}

/// What a fetch asks for, as plain values.
pub enum FetchQuestion {
    ProbeMarker { path: Seq<char> },
    Download { url: Seq<char>, dest_dir: Seq<char> },
    Unpack { tar: Seq<u8>, dest_dir: Seq<char> },
}

/// What a fetch asks the caller to do.
#[derive(Debug, Clone, PartialEq, Eq)]
pub enum FetchRequest {
    /// Tell whether this file exists.
    ProbeMarker { path: String },
    /// Create the directory, with the directories above it, unless it
    /// exists, and download what is at the address.
    Download { url: String, dest_dir: String },
    /// Unpack these bytes, a tar archive, into the directory.
    Unpack { tar: Vec<u8>, dest_dir: String },
}

impl View for FetchRequest {
    type V = FetchQuestion;

    open spec fn view(&self) -> FetchQuestion {
        match self {
            FetchRequest::ProbeMarker { path } => FetchQuestion::ProbeMarker { path: path@ },
            FetchRequest::Download { url, dest_dir } => FetchQuestion::Download {
                url: url@,
                dest_dir: dest_dir@,
            },
            FetchRequest::Unpack { tar, dest_dir } => FetchQuestion::Unpack {
                tar: tar@,
                dest_dir: dest_dir@,
            },
        }
    }
}

/// What the caller did, as plain values.
pub enum FetchAnswer {
    Marker(bool),
    Downloaded { status: u32, body: Seq<u8> },
    Unpacked,
    Failed,
}

/// What the caller did.
#[derive(Debug, Clone, PartialEq, Eq)]
pub enum FetchReply {
    /// Whether the file exists.
    Marker(bool),
    /// The status that the transport reported, as HTTP numbers them, and
    /// the bytes that came.
    Downloaded { status: u32, body: Vec<u8> },
    /// The archive is unpacked.
    Unpacked,
    /// What was asked for could not be done.
    Failed,
}

impl View for FetchReply {
    type V = FetchAnswer;

    open spec fn view(&self) -> FetchAnswer {
        match self {
            FetchReply::Marker(present) => FetchAnswer::Marker(*present),
            FetchReply::Downloaded { status, body } => FetchAnswer::Downloaded {
                status: *status,
                body: body@,
            },
            FetchReply::Unpacked => FetchAnswer::Unpacked,
            FetchReply::Failed => FetchAnswer::Failed,
        }
    }
}

/// Why a fetch failed, as plain values.
pub enum FetchRefusal {
    Network { remote_name: Seq<char>, status: u32 },
    Corrupt { remote_name: Seq<char> },
    ChecksumMismatch { remote_name: Seq<char>, expected: u32, actual: u32 },
}

/// Why a fetch failed. A failed fetch is never tried again by itself.
#[derive(Debug, Clone, PartialEq, Eq)]
pub enum FetchError {
    /// The transport did not report success. The status is 0 where it
    /// reported nothing at all.
    Network { remote_name: String, status: u32 },
    /// What came is no archive that unpacks to the libraries.
    Corrupt { remote_name: String },
    /// What came does not have the checksum that the archive should have.
    ChecksumMismatch { remote_name: String, expected: u32, actual: u32 },
}

impl View for FetchError {
    type V = FetchRefusal;

    open spec fn view(&self) -> FetchRefusal {
        match self {
            FetchError::Network { remote_name, status } => FetchRefusal::Network {
                remote_name: remote_name@,
                status: *status,
            },
            FetchError::Corrupt { remote_name } => FetchRefusal::Corrupt {
                remote_name: remote_name@,
            },
            FetchError::ChecksumMismatch { remote_name, expected, actual } => {
                FetchRefusal::ChecksumMismatch {
                    remote_name: remote_name@,
                    expected: *expected,
                    actual: *actual,
                }
            },
        }
    }
}

/// What a step of a fetch leads to, as plain values.
pub enum FetchOutcome {
    Ask(Fetch, FetchQuestion),
    Done(Result<(), FetchRefusal>),
}

/// What a step of a fetch leads to.
#[derive(Debug, PartialEq, Eq)]
pub enum FetchStep {
    /// The fetch goes on: the caller does what is asked and takes the next
    /// step with what came of it.
    Ask(Fetcher, FetchRequest),
    /// The fetch is over.
    Done(Result<(), FetchError>),
}

impl View for FetchStep {
    type V = FetchOutcome;

    open spec fn view(&self) -> FetchOutcome {
        match self {
            FetchStep::Ask(fetcher, request) => FetchOutcome::Ask(fetcher@, request@),
            FetchStep::Done(end) => FetchOutcome::Done(
                match end {
                    Ok(_) => Ok(()),
                    Err(e) => Err(e@),
                },
            ),
        }
    }
}

/// Where the marker of an archive lies once the archive is unpacked.
pub open spec fn marker_path(archive: Archive, platform: Platform) -> Seq<char> {
    join_path(archive.dest_dir, marker_name(platform), platform)
}

/// Whether a status of the transport means success.
pub open spec fn is_success(status: u32) -> bool {
    200 <= status < 300
}

/// What is wrong with a download, if anything: the transport reported no
/// success, or the bytes do not have the checksum that is expected.
pub open spec fn download_fault(archive: Archive, status: u32, body: Seq<u8>) -> Option<
    FetchRefusal,
> {
    if !is_success(status) {
        Some(FetchRefusal::Network { remote_name: archive.remote_name, status })
    } else {
        match archive.checksum {
            Some(expected) => if adler32(body) != expected {
                Some(
                    FetchRefusal::ChecksumMismatch {
                        remote_name: archive.remote_name,
                        expected,
                        actual: adler32(body) as u32,
                    },
                )
            } else {
                None
            },
            None => None,
        }
    }
}

/// The fetch after decompression: what did not decompress is corrupt, and
/// what did is to be unpacked.
pub open spec fn after_decoding(fetch: Fetch, decoded: Option<Seq<u8>>) -> FetchOutcome {
    match decoded {
        None => FetchOutcome::Done(
            Err(FetchRefusal::Corrupt { remote_name: fetch.archive.remote_name }),
        ),
        Some(tar) => FetchOutcome::Ask(
            Fetch { stage: FetchStage::Unpacking, ..fetch },
            FetchQuestion::Unpack { tar, dest_dir: fetch.archive.dest_dir },
        ),
    }
}

/// The question whether the marker is there.
pub open spec fn probe(fetch: Fetch) -> FetchQuestion {
    FetchQuestion::ProbeMarker { path: marker_path(fetch.archive, fetch.platform) }
}

/// One step of a fetch.
///
/// - Before anything else: where the marker is there, nothing is left to
///   do; else the archive is downloaded.
/// - After the download: a fault of the download ends the fetch before
///   anything is unpacked; else the bytes are decompressed and unpacked.
/// - After unpacking: the marker is looked for again.
/// - At last: where the marker is still not there, the archive was corrupt.
///
/// An answer that does not fit the question counts as a failure of what was
/// asked for.
pub open spec fn fetch_step(fetch: Fetch, answer: FetchAnswer) -> FetchOutcome {
    let name = fetch.archive.remote_name;
    match fetch.stage {
        FetchStage::CheckBefore => match answer {
            FetchAnswer::Marker(true) => FetchOutcome::Done(Ok(())),
            _ => FetchOutcome::Ask(
                Fetch { stage: FetchStage::Fetching, ..fetch },
                FetchQuestion::Download { url: url_of(name), dest_dir: fetch.archive.dest_dir },
            ),
        },
        FetchStage::Fetching => match answer {
            FetchAnswer::Downloaded { status, body } => match download_fault(
                fetch.archive,
                status,
                body,
            ) {
                Some(fault) => FetchOutcome::Done(Err(fault)),
                None => after_decoding(fetch, zstd_decoded(body)),
            },
            _ => FetchOutcome::Done(Err(FetchRefusal::Network { remote_name: name, status: 0 })),
        },
        FetchStage::Unpacking => match answer {
            FetchAnswer::Unpacked => FetchOutcome::Ask(
                Fetch { stage: FetchStage::CheckAfter, ..fetch },
                probe(fetch),
            ),
            _ => FetchOutcome::Done(Err(FetchRefusal::Corrupt { remote_name: name })),
        },
        FetchStage::CheckAfter => match answer {
            FetchAnswer::Marker(true) => FetchOutcome::Done(Ok(())),
            _ => FetchOutcome::Done(Err(FetchRefusal::Corrupt { remote_name: name })),
        },
    }
}

/// A fetch before its first step.
pub open spec fn begin(archive: Archive, platform: Platform) -> Fetch {
    Fetch { archive, platform, stage: FetchStage::CheckBefore }
}

impl Fetcher {
    /// Begins to fetch an archive. The first request is always for the
    /// marker, so that nothing is downloaded that is there already.
    pub fn fetch_and_extract(archive: ArchiveDescriptor, platform: Platform) -> (r: (
        Fetcher,
        FetchRequest,
    ))
        ensures
            r.0@ == begin(archive@, platform),
            r.1@ == probe(r.0@),
    {
        let fetcher = Fetcher { archive, platform, stage: FetchStage::CheckBefore };
        let request = fetcher.probe();
        (fetcher, request)
    }

    /// The request to look for the marker.
    fn probe(&self) -> (r: FetchRequest)
        ensures
            r@ == probe(self@),
    {
        let marker = as_library_filename(self.platform, LinkType::Dynamic, "mkl_core");
        FetchRequest::ProbeMarker {
            path: path_under(self.archive.dest_dir.as_str(), marker.as_str(), self.platform),
        }
    }

    /// What is wrong with a download, if anything.
    pub fn check_download(&self, status: u32, body: &[u8]) -> (r: Option<FetchError>)
        ensures
            match r {
                Some(e) => download_fault(self@.archive, status, body@) == Some(e@),
                None => download_fault(self@.archive, status, body@) is None,
            },
    {
        if status < 200 || status >= 300 {
            return Some(
                FetchError::Network { remote_name: self.archive.remote_name.clone(), status },
            );
        }
        match self.archive.checksum {
            Some(expected) => {
                let actual = checksum(body);
                if actual != expected {
                    Some(
                        FetchError::ChecksumMismatch {
                            remote_name: self.archive.remote_name.clone(),
                            expected,
                            actual,
                        },
                    )
                } else {
                    None
                }
            },
            None => None,
        }
    }

    /// The step after decompression, which gave `decoded`.
    pub fn after_decoding(self, decoded: Option<Vec<u8>>) -> (r: FetchStep)
        ensures
            r@ == after_decoding(
                self@,
                match decoded {
                    Some(tar) => Some(tar@),
                    None => None,
                },
            ),
    {
        match decoded {
            None => FetchStep::Done(
                Err(FetchError::Corrupt { remote_name: self.archive.remote_name }),
            ),
            Some(tar) => {
                let dest_dir = self.archive.dest_dir.clone();
                FetchStep::Ask(
                    Fetcher { stage: FetchStage::Unpacking, ..self },
                    FetchRequest::Unpack { tar, dest_dir },
                )
            },
        }
    }

    /// Takes one step with what came of the request that was made last.
    pub fn step(self, reply: &FetchReply) -> (r: FetchStep)
        ensures
            r@ == fetch_step(self@, reply@),
    {
        match self.stage {
            FetchStage::CheckBefore => match reply {
                FetchReply::Marker(true) => FetchStep::Done(Ok(())),
                _ => {
                    let mut url = "https://s3-ap-northeast-1.amazonaws.com/rust-intel-mkl".to_owned(
                    );
                    url.append("/");
                    url.append(self.archive.remote_name.as_str());
                    let dest_dir = self.archive.dest_dir.clone();
                    FetchStep::Ask(
                        Fetcher { stage: FetchStage::Fetching, ..self },
                        FetchRequest::Download { url, dest_dir },
                    )
                },
            },
            FetchStage::Fetching => match reply {
                FetchReply::Downloaded { status, body } => {
                    match self.check_download(*status, body.as_slice()) {
                        Some(fault) => FetchStep::Done(Err(fault)),
                        None => {
                            let decoded = decompress(body.as_slice());
                            self.after_decoding(decoded)
                        },
                    }
                },
                _ => FetchStep::Done(
                    Err(FetchError::Network { remote_name: self.archive.remote_name, status: 0 }),
                ),
            },
            FetchStage::Unpacking => match reply {
                FetchReply::Unpacked => {
                    let request = self.probe();
                    FetchStep::Ask(Fetcher { stage: FetchStage::CheckAfter, ..self }, request)
                },
                _ => FetchStep::Done(
                    Err(FetchError::Corrupt { remote_name: self.archive.remote_name }),
                ),
            },
            FetchStage::CheckAfter => match reply {
                FetchReply::Marker(true) => FetchStep::Done(Ok(())),
                _ => FetchStep::Done(
                    Err(FetchError::Corrupt { remote_name: self.archive.remote_name }),
                ),
            },
        }
    }
}

/// The archive of a version for a platform, to be unpacked into `out_dir`.
pub open spec fn archive_of(out_dir: Seq<char>, platform: Platform, year: u32, update: u32)
    -> Archive {
    Archive {
        remote_name: archive_name_spec(platform, year, update),
        dest_dir: out_dir,
        checksum: None,
    }
}

/// Begins to fetch the archive of a version into `out_dir`.
pub fn download(out_dir: &str, platform: Platform, year: u32, update: u32) -> (r: (
    Fetcher,
    FetchRequest,
))
    ensures
        r.0@ == begin(archive_of(out_dir@, platform, year, update), platform),
        r.1@ == probe(r.0@),
{
    let archive = ArchiveDescriptor {
        remote_name: archive_name(platform, year, update),
        dest_dir: out_dir.to_owned(),
        checksum: None,
    };
    Fetcher::fetch_and_extract(archive, platform)
}

/// Begins to fetch the archive of the default version into `out_dir`.
pub fn download_default(out_dir: &str, platform: Platform) -> (r: (Fetcher, FetchRequest))
    ensures
        r.0@ == begin(archive_of(out_dir@, platform, DEFAULT_YEAR, DEFAULT_UPDATE), platform),
        r.1@ == probe(r.0@),
{
    download(out_dir, platform, DEFAULT_YEAR, DEFAULT_UPDATE)
}

/// Fetching into a populated destination touches no network: the first
/// thing asked for is the marker, and where it is there the fetch is over,
/// with success, before any download is asked for.
pub proof fn lemma_populated_needs_no_fetch(archive: Archive, platform: Platform)
    ensures
        fetch_step(begin(archive, platform), FetchAnswer::Marker(true)) == FetchOutcome::Done(
            Ok(()),
        ),
{
}

/// A download is asked for only as the first step of a fetch, and only
/// where the marker was not found.
pub proof fn lemma_download_only_when_missing(fetch: Fetch, answer: FetchAnswer)
    ensures
        fetch_step(fetch, answer) matches FetchOutcome::Ask(_, FetchQuestion::Download { .. })
            ==> fetch.stage == FetchStage::CheckBefore && answer != FetchAnswer::Marker(true),
{
}

/// Nothing is unpacked that came with a fault: a download that the
/// transport did not call a success, or whose checksum is not the expected
/// one, ends the fetch.
pub proof fn lemma_fault_unpacks_nothing(fetch: Fetch, status: u32, body: Seq<u8>)
    requires
        fetch.stage == FetchStage::Fetching,
        download_fault(fetch.archive, status, body) is Some,
    ensures
        fetch_step(fetch, FetchAnswer::Downloaded { status, body }) == FetchOutcome::Done(
            Err(download_fault(fetch.archive, status, body)->0),
        ),
{
}

} // verus!
