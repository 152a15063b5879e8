use ruma_lints::sysroot::{
    sysroot_after_build, sysroot_after_rustc, sysroot_start, toolchain_path, SysrootStep,
    SysrootVars,
};

fn s(x: &str) -> Option<String> {
    Some(x.to_string())
}

#[test]
fn toolchain_path_joins_home_and_toolchain() {
    assert_eq!(toolchain_path(s("/home/u/.rustup"), s("nightly")), s("/home/u/.rustup/toolchains/nightly"));
}

#[test]
fn toolchain_path_home_with_trailing_separator() {
    assert_eq!(toolchain_path(s("/r/"), s("stable")), s("/r/toolchains/stable"));
}

#[test]
fn toolchain_path_absolute_toolchain_replaces() {
    assert_eq!(toolchain_path(s("/r"), s("/opt/tc")), s("/opt/tc"));
}

#[test]
fn toolchain_path_empty_home() {
    assert_eq!(toolchain_path(s(""), s("t")), s("toolchains/t"));
}

#[test]
fn toolchain_path_needs_both() {
    assert_eq!(toolchain_path(None, s("t")), None);
    assert_eq!(toolchain_path(s("/h"), None), None);
}

#[test]
fn sysroot_argument_wins() {
    let vars = SysrootVars { sysroot: s("/env"), rustup_home: s("/h"), rustup_toolchain: s("t"), ..Default::default() };
    assert_eq!(sysroot_start(s("/arg"), vars), SysrootStep::Found("/arg".to_string()));
}

#[test]
fn sysroot_variable_before_toolchain() {
    let vars = SysrootVars { sysroot: s("/env"), rustup_home: s("/h"), rustup_toolchain: s("t"), ..Default::default() };
    assert_eq!(sysroot_start(None, vars), SysrootStep::Found("/env".to_string()));
}

#[test]
fn sysroot_rustup_before_multirust() {
    let vars = SysrootVars {
        rustup_home: s("/ru"),
        multirust_home: s("/mu"),
        multirust_toolchain: s("mt"),
        ..Default::default()
    };
    assert_eq!(sysroot_start(None, vars), SysrootStep::Found("/ru/toolchains/mt".to_string()));
}

#[test]
fn sysroot_falls_back_to_rustc() {
    let vars = SysrootVars { rustup_home: s("/h"), ..Default::default() };
    assert_eq!(sysroot_start(None, vars), SysrootStep::RunRustc);
}

#[test]
fn sysroot_from_rustc_output_is_trimmed() {
    let out = b"  /usr/lib/rust\n".to_vec();
    assert_eq!(sysroot_after_rustc(Some(out)), SysrootStep::Found("/usr/lib/rust".to_string()));
}

#[test]
fn sysroot_from_rustc_output_unicode_space() {
    let out = "\u{3000}/x y\u{a0}".as_bytes().to_vec();
    assert_eq!(sysroot_after_rustc(Some(out)), SysrootStep::Found("/x y".to_string()));
}

#[test]
fn sysroot_rustc_output_not_utf8() {
    assert_eq!(sysroot_after_rustc(Some(vec![0xff, 0x2f])), SysrootStep::ReadBuildVars);
}

#[test]
fn sysroot_rustc_not_run() {
    assert_eq!(sysroot_after_rustc(None), SysrootStep::ReadBuildVars);
}

#[test]
fn sysroot_from_build_environment() {
    let vars = SysrootVars { multirust_home: s("/m"), rustup_toolchain: s("beta"), ..Default::default() };
    assert_eq!(sysroot_after_build(vars), SysrootStep::Found("/m/toolchains/beta".to_string()));
}

#[test]
fn sysroot_missing() {
    assert_eq!(sysroot_after_build(SysrootVars::default()), SysrootStep::Missing);
}
