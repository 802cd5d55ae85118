//! The patch planner, exit-code classification and outcome recording.

use xrd_mod_manager::apps::{AppStruct, AppType, Platform};
use xrd_mod_manager::patch::{
    binaries_folder, classify_exit_code, has_patch_procedure, needs_automatic_patch, plan_patch,
    record_patch_outcome, PatchFailure, PatchPlan, EXIT_MISSING_RUNTIME_32,
    EXIT_MISSING_RUNTIME_64, EXIT_SUCCESS_CODE,
};

#[test]
fn exit_code_classification() {
    assert!(classify_exit_code(Some(EXIT_SUCCESS_CODE)).is_ok());
    assert_eq!(
        classify_exit_code(Some(EXIT_MISSING_RUNTIME_32)),
        Err(PatchFailure::MissingRuntime32)
    );
    assert_eq!(
        classify_exit_code(Some(EXIT_MISSING_RUNTIME_64)),
        Err(PatchFailure::MissingRuntime64)
    );
    assert_eq!(classify_exit_code(Some(1)), Err(PatchFailure::Generic));
    assert_eq!(classify_exit_code(Some(-7)), Err(PatchFailure::Generic));
    assert_eq!(classify_exit_code(None), Err(PatchFailure::Generic));
}

#[test]
fn missing_runtime_sentinel_carries_the_32bit_message() {
    let outcome = classify_exit_code(Some(-1073741701));
    let failure = outcome.unwrap_err();
    assert_eq!(failure, PatchFailure::MissingRuntime32);
    assert_eq!(
        failure.message(),
        "Some 32-bit DLLs might be missing. Install the latest Microsoft Visual C++ Redistributable."
    );
    let mut app = AppStruct::new("kkots".to_string(), "x".to_string(), AppType::HitboxOverlay);
    record_patch_outcome(&mut app, false);
    assert!(!app.patched);
}

#[test]
fn failure_messages_are_distinct() {
    let m32 = PatchFailure::MissingRuntime32.message();
    let m64 = PatchFailure::MissingRuntime64.message();
    let generic = PatchFailure::Generic.message();
    assert_ne!(m32, m64);
    assert_ne!(m32, generic);
    assert_ne!(m64, generic);
    assert_eq!(
        m64,
        "Some 64-bit DLLs might be missing. Install the latest Microsoft Visual C++ Redistributable."
    );
}

#[test]
fn kinds_without_procedure_plan_nothing() {
    for kind in [AppType::Unknown, AppType::WakeupTool, AppType::MirrorColorSelect] {
        assert!(!has_patch_procedure(kind));
        let plan = plan_patch(kind, Platform::UnixLike, "/mods/a", "/games/xrd");
        assert!(matches!(plan, PatchPlan::NotApplicable));
    }
}

#[test]
fn unsupported_platform_is_a_skip_for_that_add_on() {
    let plan = plan_patch(AppType::HitboxOverlay, Platform::Other, "/mods/a", "/games/xrd");
    assert!(matches!(plan, PatchPlan::UnsupportedPlatform));
}

#[test]
fn hitbox_overlay_plan_copies_dll_and_runs_patcher() {
    let plan = plan_patch(
        AppType::HitboxOverlay,
        Platform::UnixLike,
        "/mods/kkots/ggxrd_hitbox_overlay_2211",
        "/games/xrd",
    );
    match plan {
        PatchPlan::Run { copies, executable, stdin_script } => {
            assert_eq!(copies.len(), 1);
            assert_eq!(
                copies[0].source,
                "/mods/kkots/ggxrd_hitbox_overlay_2211/ggxrd_hitbox_overlay.dll"
            );
            assert_eq!(
                copies[0].destination,
                "/games/xrd/Binaries/Win32/ggxrd_hitbox_overlay.dll"
            );
            assert_eq!(
                executable,
                "/mods/kkots/ggxrd_hitbox_overlay_2211/ggxrd_hitbox_patcher_linux"
            );
            assert_eq!(stdin_script, "\n/games/xrd/Binaries/Win32/GuiltyGearXrd.exe\n\n");
        }
        other => panic!("expected a run plan, got {other:?}"),
    }
}

#[test]
fn windows_plan_uses_the_exe_installer() {
    let plan = plan_patch(AppType::BackgroundGamepad, Platform::Windows, "/m", "/g");
    match plan {
        PatchPlan::Run { copies, executable, .. } => {
            assert!(copies.is_empty());
            assert_eq!(executable, "/m/GGXrdBackgroundGamepad.exe");
        }
        other => panic!("expected a run plan, got {other:?}"),
    }
}

#[test]
fn success_sets_patched_and_is_not_retried() {
    let mut app = AppStruct::new("kkots".to_string(), "x".to_string(), AppType::HitboxOverlay);
    app.automatically_patch = true;
    assert!(needs_automatic_patch(&app));
    record_patch_outcome(&mut app, true);
    assert!(app.patched);
    assert!(!needs_automatic_patch(&app));
    record_patch_outcome(&mut app, false);
    assert!(app.patched);
}

#[test]
fn binaries_folder_path() {
    assert_eq!(binaries_folder("/games/xrd"), "/games/xrd/Binaries/Win32");
}
