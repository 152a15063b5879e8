use vstd::prelude::*;

use crate::args::{arg_value, inline_value, key_of, option_values, texts, values_from};
use crate::text::is_first_at;
use crate::text::same;

verus! {

/// The version this driver reports.
pub const VERSION: &'static str = "0.1.0";

/// The text printed for `--help`.
pub fn help_text() -> (r: &'static str)
    ensures
        r@ == "Checks a package to catch common mistakes and improve your Rust code.
Usage:
    cargo clippy [options] [--] [<opts>...]
Common options:
    -h, --help               Print this message
        --rustc              Pass all args to rustc
    -V, --version            Print version info and exit
Other options are the same as `cargo check`.
To allow or deny a lint from the command line you can use `cargo clippy --`
with:
    -W --warn OPT       Set lint warnings
    -A --allow OPT      Set lint allowed
    -D --deny OPT       Set lint denied
    -F --forbid OPT     Set lint forbidden
You can use tool lints to allow or deny lints from your code, eg.:
    #[allow(clippy::needless_lifetimes)]
"@,
{
    "Checks a package to catch common mistakes and improve your Rust code.
Usage:
    cargo clippy [options] [--] [<opts>...]
Common options:
    -h, --help               Print this message
        --rustc              Pass all args to rustc
    -V, --version            Print version info and exit
Other options are the same as `cargo check`.
To allow or deny a lint from the command line you can use `cargo clippy --`
with:
    -W --warn OPT       Set lint warnings
    -A --allow OPT      Set lint allowed
    -D --deny OPT       Set lint denied
    -F --forbid OPT     Set lint forbidden
You can use tool lints to allow or deny lints from your code, eg.:
    #[allow(clippy::needless_lifetimes)]
"
}

/// Whether the compiler goes on after a stage.
#[derive(PartialEq, Eq, Structural, Clone, Copy, Debug)]
pub enum Compilation {
    Stop,
    Continue,
}

/// The compiler callbacks of the lint driver.
pub struct RumaCallbacks;

impl RumaCallbacks {
    /// After parsing the driver goes on, to reach the late lint passes.
    pub fn after_parsing(&self) -> (r: Compilation)
        ensures
            r == Compilation::Continue,
    {
        Compilation::Continue
    }

    /// After macro expansion the driver goes on.
    pub fn after_expansion(&self) -> (r: Compilation)
        ensures
            r == Compilation::Continue,
    {
        Compilation::Continue
    }

    /// After analysis the driver stops: it produces no binary.
    pub fn after_analysis(&self) -> (r: Compilation)
        ensures
            r == Compilation::Stop,
    {
        Compilation::Stop
    }
}

/// What one run of the driver does.
#[derive(PartialEq, Eq, Debug, Clone)]
pub enum Invocation {
    /// Run plain `rustc` with these arguments.
    Rustc(Vec<String>),
    /// Print `VERSION` and exit with success.
    Version,
    /// Print `help_text()` and exit with success.
    Help,
    /// Run the compiler with the lints, with these arguments.
    Driver(Vec<String>),
}

/// `i` is the first position of `t` in `args`.
pub open spec fn is_first_arg(args: Seq<Seq<char>>, t: Seq<char>, i: int) -> bool {
    &&& 0 <= i < args.len()
    &&& args[i] == t
    &&& forall|j: int| 0 <= j < i ==> args[j] != t
}

/// Whether `t` is one of `args`.
pub open spec fn has_arg(args: Seq<Seq<char>>, t: Seq<char>) -> bool {
    exists|i: int| 0 <= i < args.len() && args[i] == t
}

/// Whether the arguments give the option `--sysroot` a value.
pub open spec fn names_sysroot(args: Seq<Seq<char>>) -> bool {
    option_values(args, "--sysroot"@).len() > 0
}

/// `args` followed by `--sysroot <root>` unless `given`.
pub open spec fn with_sysroot(args: Seq<Seq<char>>, root: Seq<char>, given: bool) -> Seq<Seq<char>> {
    if given {
        args
    } else {
        args + seq!["--sysroot"@, root]
    }
}

/// The arguments for plain `rustc` when `--rustc` first stands at `p`:
/// `--rustc` is taken out and the program name becomes `rustc`.
pub open spec fn rustc_args(args: Seq<Seq<char>>, p: int, root: Seq<char>) -> Seq<Seq<char>> {
    with_sysroot(args.remove(p).update(0, "rustc"@), root, names_sysroot(args))
}

/// Whether the run prints the version.
pub open spec fn asks_version(args: Seq<Seq<char>>) -> bool {
    has_arg(args, "--version"@) || has_arg(args, "-V"@)
}

/// Whether the run prints the help.
pub open spec fn asks_help(args: Seq<Seq<char>>) -> bool {
    has_arg(args, "--help"@) || has_arg(args, "-h"@)
}

/// Whether `t` is one of `args`.
fn contains_arg(args: &Vec<String>, t: &str) -> (r: bool)
    ensures
        r == has_arg(texts(args@), t@),
{
    let n = args.len();
    for i in 0..n
        invariant
            n == args@.len(),
            forall|j: int| 0 <= j < i ==> args@[j]@ != t@,
    {
        if same(args[i].as_str(), t) {
            assert(texts(args@)[i as int] == t@);
            return true;
        }
    }
    assert forall|j: int| 0 <= j < texts(args@).len() implies texts(args@)[j] != t@ by {
        assert(texts(args@)[j] == args@[j]@);
    }
    false
}

/// The first position of `t` in `args`, if any.
fn position_of(args: &Vec<String>, t: &str) -> (r: Option<usize>)
    ensures
        r matches Some(p) ==> is_first_arg(texts(args@), t@, p as int),
        r is None ==> !has_arg(texts(args@), t@),
{
    let n = args.len();
    for i in 0..n
        invariant
            n == args@.len(),
            forall|j: int| 0 <= j < i ==> texts(args@)[j] != t@,
    {
        if same(args[i].as_str(), t) {
            return Some(i);
        }
    }
    None
}

/// Appends `--sysroot <root>` unless `given`.
fn add_sysroot(args: &mut Vec<String>, root: &str, given: bool)
    ensures
        texts(final(args)@) == with_sysroot(texts(old(args)@), root@, given),
{
    if !given {
        let ghost before = texts(args@);
        args.push("--sysroot".to_owned());
        args.push(root.to_owned());
        assert(texts(args@) =~= before + seq!["--sysroot"@, root@]);
    }
}

/// Decides what a run with the command line `orig_args` (program name first)
/// does, given the sysroot that was found. Plain `rustc` is run when
/// `--rustc` is given; otherwise `--version`/`-V` prints the version, then
/// `--help`/`-h` the help; otherwise the lint driver runs. Either compiler
/// gets `--sysroot <sys_root>` appended unless the command line names one.
pub fn plan_invocation(orig_args: Vec<String>, sys_root: &str) -> (r: Invocation)
    requires
        has_arg(texts(orig_args@), "--rustc"@) ==> orig_args@.len() >= 2,
    ensures
        ({
            let a = texts(orig_args@);
            if has_arg(a, "--rustc"@) {
                r matches Invocation::Rustc(v) && texts(v@) == rustc_args(
                    a,
                    choose|p: int| is_first_arg(a, "--rustc"@, p),
                    sys_root@,
                )
            } else if asks_version(a) {
                r is Version
            } else if asks_help(a) {
                r is Help
            } else {
                r matches Invocation::Driver(v) && texts(v@) == with_sysroot(
                    a,
                    sys_root@,
                    names_sysroot(a),
                )
            }
        }),
{
    let ghost a = texts(orig_args@);
    let accept_any = |_s: &str| -> (b: bool)
        ensures
            b,
        { true };
    let given = arg_value(orig_args.as_slice(), "--sysroot", accept_any).is_some();
    assert(given == names_sysroot(a)) by {
        let vals = option_values(a, "--sysroot"@);
        if vals.len() > 0 && !given {
            assert(crate::args::turned_down(accept_any, vals[0]));
        }
    }
    let mut args = orig_args;
    match position_of(&args, "--rustc") {
        Some(pos) => {
            proof {
                assert(has_arg(a, "--rustc"@));
                let q = choose|p: int| is_first_arg(a, "--rustc"@, p);
                assert(q == pos as int);
            }
            args.remove(pos);
            args.set(0, "rustc".to_owned());
            assert(texts(args@) =~= a.remove(pos as int).update(0, "rustc"@));
            add_sysroot(&mut args, sys_root, given);
            return Invocation::Rustc(args);
        },
        None => {},
    }
    if contains_arg(&args, "--version") || contains_arg(&args, "-V") {
        return Invocation::Version;
    }
    if contains_arg(&args, "--help") || contains_arg(&args, "-h") {
        return Invocation::Help;
    }
    add_sysroot(&mut args, sys_root, given);
    Invocation::Driver(args)
}

proof fn lemma_appended_option_is_seen(
    args: Seq<Seq<char>>,
    find: Seq<char>,
    value: Seq<char>,
    i: int,
)
    requires
        0 <= i <= args.len(),
        values_from(args, find, i).len() == 0,
        key_of(find) == find,
        inline_value(find) is None,
    ensures
        values_from(args + seq![find, value], find, i).len() > 0,
    decreases args.len() - i,
{
    let b = args + seq![find, value];
    let n = args.len() as int;
    if i == n {
        assert(b[i] == find);
        assert(values_from(b, find, i) == seq![value] + values_from(b, find, i + 2));
    } else {
        assert(b[i] == args[i]);
        if key_of(args[i]) != find {
            lemma_appended_option_is_seen(args, find, value, i + 1);
        } else {
            match inline_value(args[i]) {
                Some(v) => {
                    assert(values_from(args, find, i)[0] == v);
                },
                None => {
                    if i + 1 < n {
                        assert(values_from(args, find, i)[0] == args[i + 1]);
                    } else {
                        assert(values_from(b, find, i)[0] == b[i + 1]);
                    }
                },
            }
        }
    }
}

/// Law: whenever the lint driver runs, its command line gives `--sysroot` a
/// value, whether the user's command line did or the sysroot found was added.
pub proof fn lemma_driver_names_sysroot(args: Seq<Seq<char>>, root: Seq<char>)
    ensures
        names_sysroot(with_sysroot(args, root, names_sysroot(args))),
{
    if !names_sysroot(args) {
        reveal_strlit("--sysroot");
        let k = "--sysroot"@;
        assert(!exists|p: int| is_first_at(k, '=', p));
        lemma_appended_option_is_seen(args, k, root, 0);
    }
}

} // verus!
