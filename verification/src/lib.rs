//! A self-update orchestrator: a user-supplied policy script names the
//! current and the latest version of a program and where an update is
//! installed from; the library validates and evaluates the policy, compares
//! the versions, classifies the artifact, and plans its installation next to
//! the running executable. The surrounding binary performs the filesystem and
//! network steps the plans call for.

pub mod text;
pub mod version;
pub mod archive;
pub mod download;
pub mod fsmodel;
pub mod install;
pub mod jq;
pub mod orchestrator;
pub mod script;

use vstd::prelude::*;

verus! {

/// How an artifact file must be materialized, decided by its file name alone.
#[derive(Clone, Copy, PartialEq, Eq, Structural, Debug)]
pub enum ArchiveKind {
    Zip,
    Tar,
    TarGz,
    PlainFile,
}

/// Whether `s` ends with `suffix`.
pub open spec fn seq_ends_with(s: Seq<char>, suffix: Seq<char>) -> bool {
    suffix.len() <= s.len() && s.skip(s.len() - suffix.len()) == suffix
}

} // verus!
