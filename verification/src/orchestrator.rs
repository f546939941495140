use vstd::prelude::*;

use crate::script::EngineError;
use crate::script::EngineErrorKind;
use crate::script::WasaupEngine;
use crate::script::ScriptFnDecl;
use crate::script::call_result;
use crate::script::parse_fail_chars;
use crate::script::runtime_error_chars;
use crate::version::SemVer;
use crate::version::semver_parse_spec;
use crate::version::sv_eq;
use crate::version::to_version_string;
use crate::version::version_chars;
use crate::version::version_chars_of;

verus! {

/// What the resolved update calls for.
#[derive(Debug)]
pub enum UpdateAction {
    /// Current and latest agree: nothing to install.
    UpToDate,
    /// The versions differ: install from this location.
    Install { location: String },
}

/// The outcome of resolving an update: both versions, and the action they
/// call for.
#[derive(Debug)]
pub struct UpdateOutcome {
    pub current: SemVer,
    pub latest: SemVer,
    pub action: UpdateAction,
}

/// How reading one version from the script fails, when it fails: the call's
/// own diagnostic, or the parse failure wrapped in the version message.
pub open spec fn version_step_error(
    decls: Seq<ScriptFnDecl>,
    name: Seq<char>,
    label: Seq<char>,
) -> Option<Seq<char>> {
    match call_result(decls, name, Seq::<Seq<char>>::empty()) {
        Err(m) => Some(m),
        Ok(s) => match semver_parse_spec(s) {
            Err(d) => Some(runtime_error_chars(parse_fail_chars(s, label, d))),
            Ok(_) => None,
        },
    }
}

/// The components of the version a successful step yields.
pub open spec fn version_step_value(decls: Seq<ScriptFnDecl>, name: Seq<char>) -> (
    u64,
    u64,
    u64,
    Seq<char>,
    Seq<char>,
) {
    semver_parse_spec(call_result(decls, name, Seq::<Seq<char>>::empty())->Ok_0)->Ok_0
}

/// Whether an install is called for: exactly when the two versions differ
/// structurally.
pub fn should_install(current: &SemVer, latest: &SemVer) -> (b: bool)
    ensures
        b == !sv_eq(*current, *latest),
{
    !(current == latest)
}

/// Resolves an update against a loaded policy script: reads the current and
/// the latest version, compares them structurally, and when they differ asks
/// the script where the latest version is installed from, handing it the
/// latest version written in its normalized form.
pub fn resolve_update(engine: &WasaupEngine) -> (r: Result<UpdateOutcome, EngineError>)
    ensures
        r matches Ok(out) ==> {
            let c = call_result(engine.decls(), "current_version"@, Seq::<Seq<char>>::empty());
            let l = call_result(engine.decls(), "latest_version"@, Seq::<Seq<char>>::empty());
            &&& c is Ok
            &&& semver_parse_spec(c->Ok_0) == Ok::<_, Seq<char>>(
                (
                    out.current.major,
                    out.current.minor,
                    out.current.patch,
                    out.current.pre@,
                    out.current.build@,
                ),
            )
            &&& l is Ok
            &&& semver_parse_spec(l->Ok_0) == Ok::<_, Seq<char>>(
                (
                    out.latest.major,
                    out.latest.minor,
                    out.latest.patch,
                    out.latest.pre@,
                    out.latest.build@,
                ),
            )
            &&& sv_eq(out.current, out.latest) ==> out.action is UpToDate
            &&& !sv_eq(out.current, out.latest) ==> (out.action matches UpdateAction::Install {
                location,
            } && call_result(
                engine.decls(),
                "install_version"@,
                seq![version_chars(out.latest)],
            ) == Ok::<_, Seq<char>>(location@))
        },
        r matches Err(e) ==> e.kind == EngineErrorKind::Script && ({
            let d = engine.decls();
            let ce = version_step_error(d, "current_version"@, "current version"@);
            let le = version_step_error(d, "latest_version"@, "latest version"@);
            if ce is Some {
                e.msg@ == ce->Some_0
            } else if le is Some {
                e.msg@ == le->Some_0
            } else {
                let cur = version_step_value(d, "current_version"@);
                let lat = version_step_value(d, "latest_version"@);
                &&& cur != lat
                &&& call_result(d, "install_version"@, seq![version_chars_of(lat)]) == Err::<
                    Seq<char>,
                    _,
                >(e.msg@)
            }
        }),
{
    let current = match engine.current_version() {
        Ok(v) => v,
        Err(e) => {
            return Err(e);
        },
    };
    let latest = match engine.latest_version() {
        Ok(v) => v,
        Err(e) => {
            return Err(e);
        },
    };
    if !should_install(&current, &latest) {
        Ok(UpdateOutcome { current, latest, action: UpdateAction::UpToDate })
    } else {
        let normalized = to_version_string(&latest);
        match engine.install_version(normalized.as_str()) {
            Ok(location) => Ok(
                UpdateOutcome { current, latest, action: UpdateAction::Install { location } },
            ),
            Err(e) => Err(e),
        }
    }
}

} // verus!
