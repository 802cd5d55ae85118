//! The patch planner and classifier: which files an installation copies,
//! which installer runs with which standard-input script, how the installer's
//! exit status is classified, and how the outcome is recorded on the
//! descriptor.

use vstd::prelude::*;
use vstd::string::StringExecFns;

use crate::apps::{AppModel, AppStruct, AppType, Platform};
use crate::text::path_join;

verus! {

/// Installer exit code that reports success.
pub const EXIT_SUCCESS_CODE: i32 = 0;

/// Sentinel exit code for a missing 32-bit runtime library.
pub const EXIT_MISSING_RUNTIME_32: i32 = -1073741701;

/// Sentinel exit code for a missing 64-bit runtime library.
pub const EXIT_MISSING_RUNTIME_64: i32 = -1073741515;

/// Why a patch attempt failed.
#[derive(Clone, Copy, Debug, PartialEq, Eq, Structural)]
pub enum PatchFailure {
    /// The installer reported the 32-bit runtime library as missing.
    MissingRuntime32,
    /// The installer reported the 64-bit runtime library as missing.
    MissingRuntime64,
    /// Any other abnormal exit, including one without an exit code.
    Generic,
}

impl PatchFailure {
    /// The remediation text reported for this failure.
    pub fn message(&self) -> (r: String)
        ensures
            *self == PatchFailure::MissingRuntime32 ==> r@
                == "Some 32-bit DLLs might be missing. Install the latest Microsoft Visual C++ Redistributable."@,
            *self == PatchFailure::MissingRuntime64 ==> r@
                == "Some 64-bit DLLs might be missing. Install the latest Microsoft Visual C++ Redistributable."@,
            *self == PatchFailure::Generic ==> r@
                == "Ensure that the mod's executables can be run by hand; 32-bit or 64-bit DLLs may be missing."@,
    {
        let mut r = String::new();
        match self {
            PatchFailure::MissingRuntime32 => {
                r.append(
                    "Some 32-bit DLLs might be missing. Install the latest Microsoft Visual C++ Redistributable.",
                );
            },
            PatchFailure::MissingRuntime64 => {
                r.append(
                    "Some 64-bit DLLs might be missing. Install the latest Microsoft Visual C++ Redistributable.",
                );
            },
            PatchFailure::Generic => {
                r.append(
                    "Ensure that the mod's executables can be run by hand; 32-bit or 64-bit DLLs may be missing.",
                );
            },
        }
        r
    }
}

/// The classification of an installer exit status: `0` is the one success;
/// the two sentinel codes name the missing runtime library; everything else,
/// including an exit without a code, is a generic failure.
pub open spec fn spec_classify_exit(code: Option<i32>) -> Result<(), PatchFailure> {
    match code {
        Some(c) => if c == EXIT_SUCCESS_CODE {
            Ok(())
        } else if c == EXIT_MISSING_RUNTIME_32 {
            Err(PatchFailure::MissingRuntime32)
        } else if c == EXIT_MISSING_RUNTIME_64 {
            Err(PatchFailure::MissingRuntime64)
        } else {
            Err(PatchFailure::Generic)
        },
        None => Err(PatchFailure::Generic),
    }
}

/// Maps the installer's exit status to the patch outcome, exactly as
/// [`spec_classify_exit`] states: success if and only if the code is `0`.
pub fn classify_exit_code(code: Option<i32>) -> (r: Result<(), PatchFailure>)
    ensures
        r == spec_classify_exit(code),
        r is Ok <==> code == Some(EXIT_SUCCESS_CODE),
{
    match code {
        Some(c) => {
            if c == EXIT_SUCCESS_CODE {
                Ok(())
            } else if c == EXIT_MISSING_RUNTIME_32 {
                Err(PatchFailure::MissingRuntime32)
            } else if c == EXIT_MISSING_RUNTIME_64 {
                Err(PatchFailure::MissingRuntime64)
            } else {
                Err(PatchFailure::Generic)
            }
        },
        None => Err(PatchFailure::Generic),
    }
}

/// An add-on kind with a defined installer procedure. The remaining kinds
/// are never patched.
pub open spec fn spec_has_patch_procedure(kind: AppType) -> bool {
    match kind {
        AppType::HitboxOverlay => true,
        AppType::FasterLoadingTimes => true,
        AppType::BackgroundGamepad => true,
        _ => false,
    }
}

/// Whether this kind has an installer procedure at all.
pub fn has_patch_procedure(kind: AppType) -> (r: bool)
    ensures
        r == spec_has_patch_procedure(kind),
{
    match kind {
        AppType::HitboxOverlay => true,
        AppType::FasterLoadingTimes => true,
        AppType::BackgroundGamepad => true,
        _ => false,
    }
}

/// The plain files a patch of this kind copies into the game's binary
/// directory before the installer runs.
pub open spec fn spec_files_to_copy(kind: AppType) -> Seq<Seq<char>> {
    match kind {
        AppType::HitboxOverlay => seq!["ggxrd_hitbox_overlay.dll"@],
        _ => Seq::empty(),
    }
}

/// The installer executable of this kind on this platform, or `None` where
/// the platform is not supported.
pub open spec fn spec_installer(kind: AppType, platform: Platform) -> Option<Seq<char>> {
    match kind {
        AppType::HitboxOverlay => match platform {
            Platform::Windows => Some("ggxrd_hitbox_patcher.exe"@),
            Platform::UnixLike => Some("ggxrd_hitbox_patcher_linux"@),
            Platform::Other => None,
        },
        AppType::FasterLoadingTimes => match platform {
            Platform::Windows => Some("GGXrdFasterLoadingTimes.exe"@),
            Platform::UnixLike => Some("GGXrdFasterLoadingTimes_linux"@),
            Platform::Other => None,
        },
        AppType::BackgroundGamepad => match platform {
            Platform::Windows => Some("GGXrdBackgroundGamepad.exe"@),
            Platform::UnixLike => Some("GGXrdBackgroundGamepad_linux"@),
            Platform::Other => None,
        },
        _ => None,
    }
}

/// The game's binary directory under its installation folder.
pub open spec fn spec_binaries_folder(game_dir: Seq<char>) -> Seq<char> {
    game_dir + "/Binaries/Win32"@
}

/// The path of the game's binary directory.
pub fn binaries_folder(game_dir: &str) -> (r: String)
    ensures
        r@ == spec_binaries_folder(game_dir@),
{
    let mut r = game_dir.to_owned();
    r.append("/Binaries/Win32");
    r
}

/// The script the installer receives on standard input: a blank line, the
/// path of the game's primary executable, and two terminating newlines.
pub open spec fn spec_stdin_script(binaries_dir: Seq<char>) -> Seq<char> {
    "\n"@ + binaries_dir + "/GuiltyGearXrd.exe\n\n"@
}

/// Mathematical image of a [`FileCopy`].
pub ghost struct FileCopyModel {
    pub source: Seq<char>,
    pub destination: Seq<char>,
}

/// One verbatim file copy from the downloaded mod directory into the game's
/// binary directory.
#[derive(Debug)]
pub struct FileCopy {
    pub source: String,
    pub destination: String,
}

impl View for FileCopy {
    type V = FileCopyModel;

    open spec fn view(&self) -> FileCopyModel {
        FileCopyModel { source: self.source@, destination: self.destination@ }
    }
}

/// Mathematical image of a [`PatchPlan`].
pub ghost enum PatchPlanModel {
    NotApplicable,
    UnsupportedPlatform,
    Run { copies: Seq<FileCopyModel>, executable: Seq<char>, stdin_script: Seq<char> },
}

/// What one patch attempt must do: nothing (no procedure for the kind, or no
/// support for the host platform), or copy the listed files and then run the
/// named installer with the given standard-input script.
#[derive(Debug)]
pub enum PatchPlan {
    /// This kind has no installer procedure; the attempt is reported and the
    /// descriptor stays as it is.
    NotApplicable,
    /// The kind has a procedure, but none for this host platform.
    UnsupportedPlatform,
    /// Copy `copies` (best effort), then run `executable` feeding it
    /// `stdin_script` on standard input.
    Run { copies: Vec<FileCopy>, executable: String, stdin_script: String },
}

impl View for PatchPlan {
    type V = PatchPlanModel;

    open spec fn view(&self) -> PatchPlanModel {
        match self {
            PatchPlan::NotApplicable => PatchPlanModel::NotApplicable,
            PatchPlan::UnsupportedPlatform => PatchPlanModel::UnsupportedPlatform,
            PatchPlan::Run { copies, executable, stdin_script } => PatchPlanModel::Run {
                copies: copies@.map_values(|c: FileCopy| c@),
                executable: executable@,
                stdin_script: stdin_script@,
            },
        }
    }
}

/// The copy planned for one listed file name.
pub open spec fn spec_planned_copy(
    mod_dir: Seq<char>,
    binaries_dir: Seq<char>,
    name: Seq<char>,
) -> FileCopyModel {
    FileCopyModel {
        source: mod_dir + "/"@ + name,
        destination: binaries_dir + "/"@ + name,
    }
}

/// The whole plan of one patch attempt for `kind` on `platform`, with the
/// downloaded mod directory and the game's installation folder.
pub open spec fn spec_plan_patch(
    kind: AppType,
    platform: Platform,
    mod_dir: Seq<char>,
    game_dir: Seq<char>,
) -> PatchPlanModel {
    if !spec_has_patch_procedure(kind) {
        PatchPlanModel::NotApplicable
    } else {
        match spec_installer(kind, platform) {
            None => PatchPlanModel::UnsupportedPlatform,
            Some(installer) => PatchPlanModel::Run {
                copies: spec_files_to_copy(kind).map_values(
                    |name: Seq<char>|
                        spec_planned_copy(mod_dir, spec_binaries_folder(game_dir), name),
                ),
                executable: mod_dir + "/"@ + installer,
                stdin_script: spec_stdin_script(spec_binaries_folder(game_dir)),
            },
        }
    }
}

/// The name of the installer executable for `kind` on `platform`, if the
/// combination is supported.
fn installer_name(kind: AppType, platform: Platform) -> (r: Option<String>)
    ensures
        r is Some <==> spec_installer(kind, platform) is Some,
        r matches Some(s) ==> spec_installer(kind, platform) == Some(s@),
{
    let mut name = String::new();
    match kind {
        AppType::HitboxOverlay => match platform {
            Platform::Windows => {
                name.append("ggxrd_hitbox_patcher.exe");
            },
            Platform::UnixLike => {
                name.append("ggxrd_hitbox_patcher_linux");
            },
            Platform::Other => {
                return None;
            },
        },
        AppType::FasterLoadingTimes => match platform {
            Platform::Windows => {
                name.append("GGXrdFasterLoadingTimes.exe");
            },
            Platform::UnixLike => {
                name.append("GGXrdFasterLoadingTimes_linux");
            },
            Platform::Other => {
                return None;
            },
        },
        AppType::BackgroundGamepad => match platform {
            Platform::Windows => {
                name.append("GGXrdBackgroundGamepad.exe");
            },
            Platform::UnixLike => {
                name.append("GGXrdBackgroundGamepad_linux");
            },
            Platform::Other => {
                return None;
            },
        },
        _ => {
            return None;
        },
    }
    Some(name)
}

/// Plans one patch attempt, exactly as [`spec_plan_patch`] states: kinds
/// without a procedure are not applicable, a kind whose procedure has no
/// mapping for this platform is unsupported, and otherwise the listed files
/// are copied and the kind's installer is run with its standard-input script.
pub fn plan_patch(kind: AppType, platform: Platform, mod_dir: &str, game_dir: &str) -> (r:
    PatchPlan)
    ensures
        r@ == spec_plan_patch(kind, platform, mod_dir@, game_dir@),
{
    if !has_patch_procedure(kind) {
        return PatchPlan::NotApplicable;
    }
    let installer = match installer_name(kind, platform) {
        None => {
            return PatchPlan::UnsupportedPlatform;
        },
        Some(name) => name,
    };
    let binaries_dir = binaries_folder(game_dir);
    let mut copies: Vec<FileCopy> = Vec::new();
    match kind {
        AppType::HitboxOverlay => {
            let copy = FileCopy {
                source: path_join(mod_dir, "ggxrd_hitbox_overlay.dll"),
                destination: path_join(binaries_dir.as_str(), "ggxrd_hitbox_overlay.dll"),
            };
            copies.push(copy);
        },
        _ => {},
    }
    let executable = path_join(mod_dir, installer.as_str());
    let mut stdin_script = String::new();
    stdin_script.append("\n");
    stdin_script.append(binaries_dir.as_str());
    stdin_script.append("/GuiltyGearXrd.exe\n\n");
    let r = PatchPlan::Run { copies, executable, stdin_script };
    proof {
        let spec_copies = spec_files_to_copy(kind).map_values(
            |name: Seq<char>| spec_planned_copy(mod_dir@, spec_binaries_folder(game_dir@), name),
        );
        assert(r@ matches PatchPlanModel::Run { copies: c, .. } && c =~= spec_copies);
        assert(stdin_script@ =~= spec_stdin_script(spec_binaries_folder(game_dir@)));
    }
    r
}

/// The descriptor after the outcome of a patch attempt is recorded: a
/// successful attempt sets `patched`; anything else leaves the descriptor
/// exactly as it was, so the attempt can be retried on a later run.
pub open spec fn spec_record_patch_outcome(pre: AppModel, success: bool) -> AppModel {
    if success {
        AppModel { patched: true, ..pre }
    } else {
        pre
    }
}

/// Records a patch outcome on the descriptor, as
/// [`spec_record_patch_outcome`] states.
pub fn record_patch_outcome(app: &mut AppStruct, success: bool)
    ensures
        final(app)@ == spec_record_patch_outcome(old(app)@, success),
{
    if success {
        app.patched = true;
    }
}

/// An add-on the automatic patch scan selects: it opted in and has not been
/// patched for its current recorded version.
pub open spec fn spec_needs_automatic_patch(app: AppModel) -> bool {
    app.automatically_patch && !app.patched
}

/// Whether the automatic patch scan selects this add-on.
pub fn needs_automatic_patch(app: &AppStruct) -> (r: bool)
    ensures
        r == spec_needs_automatic_patch(app@),
{
    app.automatically_patch && !app.patched
}

/// An add-on of a kind with no installer procedure is never patched: its
/// plan is `NotApplicable`, so no installer is run, and because only a
/// successful run records anything, `patched` keeps its value.
pub proof fn lemma_no_procedure_never_patches(
    kind: AppType,
    platform: Platform,
    mod_dir: Seq<char>,
    game_dir: Seq<char>,
    pre: AppModel,
)
    requires
        !spec_has_patch_procedure(kind),
    ensures
        spec_plan_patch(kind, platform, mod_dir, game_dir) == PatchPlanModel::NotApplicable,
        spec_record_patch_outcome(pre, false) == pre,
{
}

/// A successful patch is not retried: recording success sets `patched`, and
/// the automatic patch scan never selects a descriptor whose `patched` flag
/// is set, so a second run of the driver does not reach the installer unless
/// the caller resets the flag.
pub proof fn lemma_success_not_retried(pre: AppModel)
    ensures
        spec_record_patch_outcome(pre, true).patched,
        !spec_needs_automatic_patch(spec_record_patch_outcome(pre, true)),
{
}

} // verus!
