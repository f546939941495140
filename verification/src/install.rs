use vstd::prelude::*;

use crate::ArchiveKind;
use crate::archive::after_last;
use crate::archive::extension_of;
use crate::archive::file_name;
use crate::archive::file_name_of;
use crate::seq_ends_with;
use crate::text::str_eq;

verus! {

/// Why an install cannot proceed.
#[derive(Debug)]
pub enum InstallError {
    /// The location string is neither an existing local file nor a valid URL.
    InvalidLocation { location: String },
    /// An artifact name the pipeline cannot work with.
    InvalidName { message: String },
    /// A filesystem or network failure reported by the surroundings.
    Io { message: String },
}

impl InstallError {
    /// The diagnostic text of the error.
    pub fn message(&self) -> (m: String)
        ensures
            m@ == self.message_chars(),
    {
        proof {
            reveal_strlit("Location at '");
            reveal_strlit("' appears to be an invalid URL and not exist locally.");
        }
        match self {
            InstallError::InvalidLocation { location } => {
                let mut m = String::new();
                m.append("Location at '");
                m.append(location.as_str());
                m.append("' appears to be an invalid URL and not exist locally.");
                proof {
                    assert(m@ =~= self.message_chars());
                }
                m
            },
            InstallError::InvalidName { message } => {
                let m = message.clone();
                proof {
                    assert(m@ =~= self.message_chars());
                }
                m
            },
            InstallError::Io { message } => {
                let m = message.clone();
                proof {
                    assert(m@ =~= self.message_chars());
                }
                m
            },
        }
    }

    /// What `message` returns, per variant.
    pub open spec fn message_chars(&self) -> Seq<char> {
        match self {
            InstallError::InvalidLocation { location } => "Location at '"@ + location@
                + "' appears to be an invalid URL and not exist locally."@,
            InstallError::InvalidName { message } => message@,
            InstallError::Io { message } => message@,
        }
    }
}

/// How a location string is to be treated.
#[derive(Clone, Copy, PartialEq, Eq, Structural, Debug)]
pub enum LocationKind {
    /// An existing local file: install it directly.
    LocalPath,
    /// A syntactically valid URL: download, then install.
    RemoteUrl,
    /// Neither: the install is rejected.
    Invalid,
}

/// Whether `url::Url::parse` accepts the text as a URL.
pub uninterp spec fn is_parseable_url(s: Seq<char>) -> bool;

/// Relies on `reqwest::Url::parse` (the `url` crate's parser) to decide
/// whether the text is a syntactically valid URL.
#[verifier::external_body]
fn url_parse_ok(s: &str) -> (r: bool)
    ensures
        r == is_parseable_url(s@),
{
    reqwest::Url::parse(s).is_ok()
}

/// Classifies a location string once and for all: an existing local file
/// wins, then a parseable URL; anything else is invalid. Whether the location
/// names an existing regular file is a fact about the surroundings and is
/// handed in by the caller.
pub fn classify_location(loc: &str, is_existing_file: bool) -> (k: LocationKind)
    ensures
        is_existing_file ==> k == LocationKind::LocalPath,
        !is_existing_file && is_parseable_url(loc@) ==> k == LocationKind::RemoteUrl,
        !is_existing_file && !is_parseable_url(loc@) ==> k == LocationKind::Invalid,
{
    if is_existing_file {
        LocationKind::LocalPath
    } else if url_parse_ok(loc) {
        LocationKind::RemoteUrl
    } else {
        LocationKind::Invalid
    }
}

/// The steps that installing a local artifact calls for, decided by its file
/// name alone: which extraction to run, and which wrapper directory to
/// normalize afterwards, or the name a plain file is placed under.
#[derive(Debug)]
pub enum ArchivePlan {
    /// Extract the Zip entries into the destination, then unroll the base
    /// directory (the file name with `.zip` stripped).
    Zip { unroll_dir: String },
    /// Unpack the Tar archive into the destination, then unroll the base
    /// directory (the file name with its extension stripped).
    Tar { unroll_dir: String },
    /// Decompress and unpack into the destination, then unroll the base
    /// directory (the file name with `.tar.gz`, or `.tgz`, stripped).
    TarGz { unroll_dir: String },
    /// No extraction: place the file under its own name, replacing whatever
    /// sits there.
    PlainFile { dest_name: String },
}

proof fn lemma_after_last_contains(s: Seq<char>, c: char)
    requires
        s.contains(c),
    ensures
        after_last(s, c).len() < s.len(),
        s[s.len() - 1 - after_last(s, c).len()] == c,
        after_last(s, c) == s.subrange(s.len() - after_last(s, c).len(), s.len() as int),
    decreases s.len(),
{
    if s.last() == c {
        assert(after_last(s, c) =~= s.subrange(s.len() as int, s.len() as int));
    } else {
        let d = s.drop_last();
        assert(d.contains(c)) by {
            let k = choose|k: int| 0 <= k < s.len() && s[k] == c;
            assert(d[k] == c);
        }
        lemma_after_last_contains(d, c);
        assert(after_last(s, c) =~= s.subrange(s.len() - after_last(s, c).len(), s.len() as int));
    }
}

/// With the extension `e` of `f` known, `f` ends in `'.'` followed by `e`,
/// after a non-empty stem.
pub proof fn lemma_extension_shape(f: Seq<char>)
    requires
        extension_of(f) is Some,
    ensures
        ({
            let e = extension_of(f)->Some_0;
            &&& e.len() + 2 <= f.len()
            &&& f[f.len() - 1 - e.len()] == '.'
            &&& e == f.subrange(f.len() - e.len(), f.len() as int)
        }),
{
    lemma_after_last_contains(f, '.');
}

/// The plan the classification of `path` calls for: the right variant, the
/// right base name, and the right rejection where the name cannot be used.
pub open spec fn plan_for(path: Seq<char>, r: Result<ArchivePlan, InstallError>) -> bool {
    let f = file_name_of(path);
    match crate::archive::classify_chars(path) {
        ArchiveKind::Zip => r matches Ok(ArchivePlan::Zip { unroll_dir }) && unroll_dir@ == f.take(
            f.len() - 4,
        ),
        ArchiveKind::Tar => r matches Ok(ArchivePlan::Tar { unroll_dir }) && unroll_dir@ == f.take(
            f.len() - 4,
        ),
        ArchiveKind::TarGz => {
            if seq_ends_with(f, ".tar.gz"@) {
                r matches Ok(ArchivePlan::TarGz { unroll_dir }) && unroll_dir@ == f.take(
                    f.len() - 7,
                )
            } else if seq_ends_with(f, ".tgz"@) {
                r matches Ok(ArchivePlan::TarGz { unroll_dir }) && unroll_dir@ == f.take(
                    f.len() - 4,
                )
            } else {
                r matches Err(e) && e matches InstallError::InvalidName { message } && message@
                    == "File name does not end with .tar.gz"@
            }
        },
        ArchiveKind::PlainFile => {
            if f.len() > 0 {
                r matches Ok(ArchivePlan::PlainFile { dest_name }) && dest_name@ == f
            } else {
                r matches Err(e) && e matches InstallError::InvalidName { message } && message@
                    == "Provided path has no file name"@
            }
        },
    }
}

/// Decides how the artifact named by `path` is installed. The choice follows
/// the archive classification of the final path segment; the plan carries the
/// base name that the later normalization step works on.
pub fn install_archive(path: &str) -> (r: Result<ArchivePlan, InstallError>)
    ensures
        plan_for(path@, r),
{
    proof {
        reveal_strlit("zip");
        reveal_strlit("tar");
        reveal_strlit("gz");
        reveal_strlit("tgz");
        reveal_strlit(".tar.gz");
        reveal_strlit(".tgz");
        assert("zip"@ =~= seq!['z', 'i', 'p']);
        assert("tar"@ =~= seq!['t', 'a', 'r']);
        assert("gz"@ =~= seq!['g', 'z']);
        assert("tgz"@ =~= seq!['t', 'g', 'z']);
    }
    let fname = file_name(path);
    let f = fname.as_str();
    let flen = f.unicode_len();
    let ext = crate::archive::extension_range(f);
    match ext {
        None => {
            if flen > 0 {
                Ok(ArchivePlan::PlainFile { dest_name: fname })
            } else {
                Err(
                    InstallError::InvalidName {
                        message: String::from_str("Provided path has no file name"),
                    },
                )
            }
        },
        Some(i) => {
            proof {
                lemma_extension_shape(f@);
            }
            let e = f.substring_char(i, flen);
            if str_eq(e, "zip") {
                Ok(ArchivePlan::Zip { unroll_dir: f.substring_char(0, flen - 4).to_owned() })
            } else if str_eq(e, "tar") {
                Ok(ArchivePlan::Tar { unroll_dir: f.substring_char(0, flen - 4).to_owned() })
            } else if str_eq(e, "gz") || str_eq(e, "tgz") {
                if flen >= 7 && str_eq(f.substring_char(flen - 7, flen), ".tar.gz") {
                    proof {
                        assert(f@.subrange(flen - 7, flen as int) =~= f@.skip(flen - 7));
                    }
                    Ok(ArchivePlan::TarGz { unroll_dir: f.substring_char(0, flen - 7).to_owned() })
                } else if flen >= 4 && str_eq(f.substring_char(flen - 4, flen), ".tgz") {
                    proof {
                        if seq_ends_with(f@, ".tar.gz"@) {
                            assert(f@.subrange(flen - 7, flen as int) =~= f@.skip(flen - 7));
                        }
                        assert(f@.subrange(flen - 4, flen as int) =~= f@.skip(flen - 4));
                    }
                    Ok(ArchivePlan::TarGz { unroll_dir: f.substring_char(0, flen - 4).to_owned() })
                } else {
                    proof {
                        if seq_ends_with(f@, ".tar.gz"@) {
                            assert(f@.subrange(flen - 7, flen as int) =~= f@.skip(flen - 7));
                        }
                        if seq_ends_with(f@, ".tgz"@) {
                            assert(f@.subrange(flen - 4, flen as int) =~= f@.skip(flen - 4));
                        }
                    }
                    Err(
                        InstallError::InvalidName {
                            message: String::from_str("File name does not end with .tar.gz"),
                        },
                    )
                }
            } else {
                if flen > 0 {
                    Ok(ArchivePlan::PlainFile { dest_name: fname })
                } else {
                    Err(
                        InstallError::InvalidName {
                            message: String::from_str("Provided path has no file name"),
                        },
                    )
                }
            }
        },
    }
}

/// Decides how a downloaded artifact is installed: the name the download is
/// saved under — the `Content-Disposition` header's offer when there is one,
/// else the URL's final segment — and the plan that name calls for.
pub fn download_install_archive(url: &str, content_disposition: Option<&str>) -> (r: Result<
    (String, ArchivePlan),
    InstallError,
>)
    ensures
        ({
            let name = match content_disposition {
                Some(h) => crate::download::download_name(url@, Some(h@)),
                None => crate::download::download_name(url@, None::<Seq<char>>),
            };
            match r {
                Ok((saved, plan)) => saved@ == name && plan_for(name, Ok(plan)),
                Err(e) => plan_for(name, Err(e)),
            }
        }),
{
    let name = crate::download::download_file_name(url, content_disposition);
    match install_archive(name.as_str()) {
        Ok(plan) => Ok((name, plan)),
        Err(e) => Err(e),
    }
}

/// Where an install goes after classification.
#[derive(Debug)]
pub enum InstallRoute {
    /// The location is an existing local artifact: run this plan.
    Local(ArchivePlan),
    /// The location is remote: download it, then plan for the saved file.
    Download,
}

/// For a local location: the route is a plan for it, or its rejection.
pub open spec fn local_route_for(loc: Seq<char>, r: Result<InstallRoute, InstallError>) -> bool {
    match r {
        Ok(InstallRoute::Local(plan)) => plan_for(loc, Ok(plan)),
        Ok(InstallRoute::Download) => false,
        Err(e) => plan_for(loc, Err(e)),
    }
}

/// Starts an install for a location string: an existing local file is planned
/// at once, a syntactically valid URL is to be downloaded first, and anything
/// else is rejected as an invalid location. Whether the location names an
/// existing regular file is a fact about the surroundings, handed in by the
/// caller.
pub fn install(loc: &str, is_existing_file: bool) -> (r: Result<InstallRoute, InstallError>)
    ensures
        is_existing_file ==> local_route_for(loc@, r),
        !is_existing_file && is_parseable_url(loc@) ==> r matches Ok(InstallRoute::Download),
        !is_existing_file && !is_parseable_url(loc@) ==> (r matches Err(e) && (e
            matches InstallError::InvalidLocation { location } && location@ == loc@)),
{
    match classify_location(loc, is_existing_file) {
        LocationKind::LocalPath => match install_archive(loc) {
            Ok(plan) => Ok(InstallRoute::Local(plan)),
            Err(e) => Err(e),
        },
        LocationKind::RemoteUrl => Ok(InstallRoute::Download),
        LocationKind::Invalid => Err(InstallError::InvalidLocation { location: loc.to_owned() }),
    }
}

} // verus!
