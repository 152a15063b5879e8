use ruma_lints::args::arg_value;
use ruma_lints::config::{read_conf, Conf};
use ruma_lints::driver::{help_text, plan_invocation, Compilation, Invocation, RumaCallbacks, VERSION};

fn strings(v: &[&str]) -> Vec<String> {
    v.iter().map(|s| s.to_string()).collect()
}

#[test]
fn plan_rustc_passthrough() {
    let plan = plan_invocation(strings(&["ruma", "--rustc", "--version"]), "/sys");
    assert_eq!(plan, Invocation::Rustc(strings(&["rustc", "--version", "--sysroot", "/sys"])));
}

#[test]
fn plan_rustc_keeps_given_sysroot() {
    let plan = plan_invocation(strings(&["ruma", "--sysroot=/mine", "--rustc", "a.rs"]), "/sys");
    assert_eq!(plan, Invocation::Rustc(strings(&["rustc", "--sysroot=/mine", "a.rs"])));
}

#[test]
fn plan_rustc_only_first_flag_removed() {
    let plan = plan_invocation(strings(&["ruma", "--rustc", "--rustc"]), "/s");
    assert_eq!(plan, Invocation::Rustc(strings(&["rustc", "--rustc", "--sysroot", "/s"])));
}

#[test]
fn plan_version() {
    assert_eq!(plan_invocation(strings(&["ruma", "-V"]), "/s"), Invocation::Version);
    assert_eq!(plan_invocation(strings(&["ruma", "x", "--version"]), "/s"), Invocation::Version);
}

#[test]
fn plan_version_before_help() {
    assert_eq!(plan_invocation(strings(&["ruma", "--help", "--version"]), "/s"), Invocation::Version);
}

#[test]
fn plan_help() {
    assert_eq!(plan_invocation(strings(&["ruma", "-h"]), "/s"), Invocation::Help);
    assert_eq!(plan_invocation(strings(&["ruma", "--help"]), "/s"), Invocation::Help);
}

#[test]
fn plan_driver_adds_sysroot() {
    let plan = plan_invocation(strings(&["ruma", "src/lib.rs"]), "/s");
    assert_eq!(plan, Invocation::Driver(strings(&["ruma", "src/lib.rs", "--sysroot", "/s"])));
}

#[test]
fn plan_driver_keeps_given_sysroot() {
    let plan = plan_invocation(strings(&["ruma", "--sysroot", "/mine", "a.rs"]), "/s");
    assert_eq!(plan, Invocation::Driver(strings(&["ruma", "--sysroot", "/mine", "a.rs"])));
}

#[test]
fn plan_driver_always_names_sysroot() {
    for args in [vec!["ruma", "a.rs"], vec!["ruma", "--sysroot"], vec!["ruma", "--sysroot=/x"]] {
        match plan_invocation(strings(&args), "/s") {
            Invocation::Driver(v) => assert!(arg_value(&v, "--sysroot", |_| true).is_some()),
            other => panic!("unexpected plan {:?}", other),
        }
    }
}

#[test]
fn callbacks_stop_after_analysis() {
    let cb = RumaCallbacks;
    assert_eq!(cb.after_parsing(), Compilation::Continue);
    assert_eq!(cb.after_expansion(), Compilation::Continue);
    assert_eq!(cb.after_analysis(), Compilation::Stop);
}

#[test]
fn version_and_help() {
    assert_eq!(VERSION, "0.1.0");
    assert!(help_text().starts_with("Checks a package to catch common mistakes"));
    assert!(help_text().contains("-V, --version            Print version info and exit"));
}

#[test]
fn read_conf_is_empty() {
    assert_eq!(read_conf(&[]), Ok(Conf {}));
    assert_eq!(read_conf(&["x = 1"]), Ok(Conf {}));
}
