use vstd::prelude::*;
use vstd::utf8::{decode_utf8, valid_utf8};

use crate::text::{chars_of, trim, trimmed, utf8_string};

verus! {

/// The text of an optional string.
pub open spec fn opt_text(o: Option<String>) -> Option<Seq<char>> {
    match o {
        Some(s) => Some(s@),
        None => None,
    }
}

/// `a` if it holds a value, else `b`.
pub open spec fn either(a: Option<Seq<char>>, b: Option<Seq<char>>) -> Option<Seq<char>> {
    if a is Some {
        a
    } else {
        b
    }
}

/// The path `base` extended by `p` with `/` as separator: an absolute `p`
/// replaces `base`, and a separator is put between them where `base` is not
/// empty and does not already end in one. These are the rules of
/// `PathBuf::push` on Unix; paths here always follow them, also on Windows,
/// where `PathBuf::push` uses `\` and drive prefixes.
pub open spec fn push_path(base: Seq<char>, p: Seq<char>) -> Seq<char> {
    if p.len() > 0 && p[0] == '/' {
        p
    } else if base.len() > 0 && base.last() != '/' {
        base + seq!['/'] + p
    } else {
        base + p
    }
}

/// The directory of toolchain `toolchain` under the installation root `home`.
pub open spec fn toolchain_dir(home: Option<Seq<char>>, toolchain: Option<Seq<char>>) -> Option<
    Seq<char>,
> {
    match (home, toolchain) {
        (Some(h), Some(t)) => Some(push_path(push_path(h, "toolchains"@), t)),
        _ => None,
    }
}

/// Appends path `p` to `base`, as `push_path` says.
pub fn push_path_exec(base: &mut String, p: &str)
    ensures
        final(base)@ == push_path(old(base)@, p@),
{
    let pc = chars_of(p);
    let bc = chars_of(base.as_str());
    if pc.len() > 0 && pc[0] == '/' {
        *base = p.to_owned();
    } else if bc.len() > 0 && bc[bc.len() - 1] != '/' {
        proof {
            reveal_strlit("/");
        }
        base.append("/");
        base.append(p);
    } else {
        base.append(p);
    }
}

/// The toolchain directory `<home>/toolchains/<toolchain>`, if both are
/// known, joined by the Unix rules of `push_path`.
pub fn toolchain_path(home: Option<String>, toolchain: Option<String>) -> (r: Option<String>)
    ensures
        opt_text(r) == toolchain_dir(opt_text(home), opt_text(toolchain)),
{
    match home {
        Some(home) => match toolchain {
            Some(toolchain) => {
                let mut path = home;
                push_path_exec(&mut path, "toolchains");
                push_path_exec(&mut path, toolchain.as_str());
                Some(path)
            },
            None => None,
        },
        None => None,
    }
}

/// The environment variables that locate a sysroot, each as read (`None`
/// where it is not set).
#[derive(PartialEq, Eq, Debug, Clone, Default)]
pub struct SysrootVars {
    pub sysroot: Option<String>,
    pub rustup_home: Option<String>,
    pub multirust_home: Option<String>,
    pub rustup_toolchain: Option<String>,
    pub multirust_toolchain: Option<String>,
}

/// The sysroot that an explicit argument or these variables name: the
/// argument, else `SYSROOT`, else the toolchain directory that the rustup (or
/// else multirust) home and toolchain variables name.
pub open spec fn sysroot_from_vars(arg: Option<Seq<char>>, vars: SysrootVars) -> Option<Seq<char>> {
    either(
        arg,
        either(
            opt_text(vars.sysroot),
            toolchain_dir(
                either(opt_text(vars.rustup_home), opt_text(vars.multirust_home)),
                either(opt_text(vars.rustup_toolchain), opt_text(vars.multirust_toolchain)),
            ),
        ),
    )
}

/// The sysroot that the output of `rustc --print sysroot` names: the output
/// without surrounding white space, where it is UTF-8.
pub open spec fn sysroot_from_output(out: Option<Seq<u8>>) -> Option<Seq<char>> {
    match out {
        Some(b) => if valid_utf8(b) {
            Some(trimmed(decode_utf8(b)))
        } else {
            None
        },
        None => None,
    }
}

/// The sysroot, looked for from the most specific source to the least: the
/// command line, the environment of this run, the output of
/// `rustc --print sysroot`, and the environment the program was built in.
pub open spec fn sysroot_of(
    arg: Option<Seq<char>>,
    runtime: SysrootVars,
    output: Option<Seq<u8>>,
    build: SysrootVars,
) -> Option<Seq<char>> {
    either(
        sysroot_from_vars(arg, runtime),
        either(sysroot_from_output(output), sysroot_from_vars(None, build)),
    )
}

proof fn lemma_toolchain_dir_plain(h: Seq<char>, t: Seq<char>)
    requires
        h.len() > 0,
        h.last() != '/',
        t.len() > 0,
        t[0] != '/',
    ensures
        toolchain_dir(Some(h), Some(t)) == Some(h + "/toolchains/"@ + t),
{
    reveal_strlit("toolchains");
    reveal_strlit("/toolchains/");
    let d = h + seq!['/'] + "toolchains"@;
    assert(push_path(h, "toolchains"@) == d);
    assert(d.last() == 's');
    assert(push_path(d, t) =~= h + "/toolchains/"@ + t);
}

/// Law: with no argument and no `SYSROOT`, the rustup home and toolchain,
/// where both are set, give the sysroot `<home>/toolchains/<toolchain>`,
/// whatever the multirust variables hold.
pub proof fn lemma_rustup_comes_first(vars: SysrootVars, h: Seq<char>, t: Seq<char>)
    requires
        vars.sysroot is None,
        opt_text(vars.rustup_home) == Some(h),
        opt_text(vars.rustup_toolchain) == Some(t),
        h.len() > 0,
        h.last() != '/',
        t.len() > 0,
        t[0] != '/',
    ensures
        sysroot_from_vars(None, vars) == Some(h + "/toolchains/"@ + t),
{
    lemma_toolchain_dir_plain(h, t);
}

/// Law: with no argument, no `SYSROOT` and no rustup variables, the
/// multirust home and toolchain, where both are set, give the sysroot
/// `<home>/toolchains/<toolchain>`.
pub proof fn lemma_multirust_when_no_rustup(vars: SysrootVars, h: Seq<char>, t: Seq<char>)
    requires
        vars.sysroot is None,
        vars.rustup_home is None,
        vars.rustup_toolchain is None,
        opt_text(vars.multirust_home) == Some(h),
        opt_text(vars.multirust_toolchain) == Some(t),
        h.len() > 0,
        h.last() != '/',
        t.len() > 0,
        t[0] != '/',
    ensures
        sysroot_from_vars(None, vars) == Some(h + "/toolchains/"@ + t),
{
    lemma_toolchain_dir_plain(h, t);
}

/// Law: a rustup variable is taken over its multirust counterpart one by
/// one: the rustup home with the multirust toolchain, where only those two
/// hold the rustup side.
pub proof fn lemma_home_and_toolchain_chosen_apart(vars: SysrootVars, h: Seq<char>, t: Seq<char>)
    requires
        vars.sysroot is None,
        opt_text(vars.rustup_home) == Some(h),
        vars.rustup_toolchain is None,
        opt_text(vars.multirust_toolchain) == Some(t),
        h.len() > 0,
        h.last() != '/',
        t.len() > 0,
        t[0] != '/',
    ensures
        sysroot_from_vars(None, vars) == Some(h + "/toolchains/"@ + t),
{
    lemma_toolchain_dir_plain(h, t);
}

/// Law: a sysroot given on the command line is the one used, whatever the
/// environments and `rustc` say.
pub proof fn lemma_explicit_sysroot_wins(
    arg: Seq<char>,
    runtime: SysrootVars,
    output: Option<Seq<u8>>,
    build: SysrootVars,
)
    ensures
        sysroot_of(Some(arg), runtime, output, build) == Some(arg),
{
}

/// Where the search for a sysroot stands.
#[derive(PartialEq, Eq, Debug, Clone)]
pub enum SysrootStep {
    /// The sysroot was found.
    Found(String),
    /// Run `rustc --print sysroot` and hand its output to `sysroot_after_rustc`.
    RunRustc,
    /// Read the variables of the build environment and hand them to `sysroot_after_build`.
    ReadBuildVars,
    /// No source names a sysroot.
    Missing,
}

fn sysroot_from_vars_exec(arg: Option<String>, vars: SysrootVars) -> (r: Option<String>)
    ensures
        opt_text(r) == sysroot_from_vars(opt_text(arg), vars),
{
    let ghost v = vars;
    if arg.is_some() {
        return arg;
    }
    let SysrootVars { sysroot, rustup_home, multirust_home, rustup_toolchain, multirust_toolchain } =
        vars;
    if sysroot.is_some() {
        return sysroot;
    }
    let home = if rustup_home.is_some() {
        rustup_home
    } else {
        multirust_home
    };
    let toolchain = if rustup_toolchain.is_some() {
        rustup_toolchain
    } else {
        multirust_toolchain
    };
    toolchain_path(home, toolchain)
}

/// First step of the search: the command line and the environment of this run.
pub fn sysroot_start(arg: Option<String>, runtime: SysrootVars) -> (r: SysrootStep)
    ensures
        match sysroot_from_vars(opt_text(arg), runtime) {
            Some(p) => r matches SysrootStep::Found(s) && s@ == p,
            None => r is RunRustc,
        },
{
    match sysroot_from_vars_exec(arg, runtime) {
        Some(s) => SysrootStep::Found(s),
        None => SysrootStep::RunRustc,
    }
}

/// Second step: the standard output of `rustc --print sysroot` (`None` where
/// it could not be run).
pub fn sysroot_after_rustc(output: Option<Vec<u8>>) -> (r: SysrootStep)
    ensures
        match sysroot_from_output(
            match output {
                Some(b) => Some(b@),
                None => None,
            },
        ) {
            Some(p) => r matches SysrootStep::Found(s) && s@ == p,
            None => r is ReadBuildVars,
        },
{
    match output {
        Some(bytes) => match utf8_string(bytes) {
            Some(text) => SysrootStep::Found(trim(text.as_str()).to_owned()),
            None => SysrootStep::ReadBuildVars,
        },
        None => SysrootStep::ReadBuildVars,
    }
}

/// Last step: the environment the program was built in.
pub fn sysroot_after_build(build: SysrootVars) -> (r: SysrootStep)
    ensures
        match sysroot_from_vars(None, build) {
            Some(p) => r matches SysrootStep::Found(s) && s@ == p,
            None => r is Missing,
        },
{
    match sysroot_from_vars_exec(None, build) {
        Some(s) => SysrootStep::Found(s),
        None => SysrootStep::Missing,
    }
}

} // verus!
