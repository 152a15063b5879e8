use vstd::prelude::*;

use crate::text::{chars_of, find_first, is_first_at, same};

verus! {

/// The text of each argument.
pub open spec fn texts(args: Seq<String>) -> Seq<Seq<char>> {
    args.map_values(|a: String| a@)
}

/// The name part of an argument: what comes before its first `=`, or all of it.
pub open spec fn key_of(arg: Seq<char>) -> Seq<char> {
    if exists|p: int| is_first_at(arg, '=', p) {
        arg.take(choose|p: int| is_first_at(arg, '=', p))
    } else {
        arg
    }
}

/// The value written into an argument after its first `=`, if it has one.
pub open spec fn inline_value(arg: Seq<char>) -> Option<Seq<char>> {
    if exists|p: int| is_first_at(arg, '=', p) {
        Some(arg.skip((choose|p: int| is_first_at(arg, '=', p)) + 1))
    } else {
        None
    }
}

/// The values given to option `find`, in the order in which a scan from
/// position `i` meets them. An option is written `find=value` or
/// `find value`; in the second form the value is the next argument, which
/// the scan then skips. A bare `find` at the end gives nothing and ends it.
pub open spec fn values_from(args: Seq<Seq<char>>, find: Seq<char>, i: int) -> Seq<Seq<char>>
    decreases args.len() - i,
{
    if i < 0 || i >= args.len() {
        seq![]
    } else if key_of(args[i]) != find {
        values_from(args, find, i + 1)
    } else {
        match inline_value(args[i]) {
            Some(v) => seq![v] + values_from(args, find, i + 1),
            None => if i + 1 < args.len() {
                seq![args[i + 1]] + values_from(args, find, i + 2)
            } else {
                seq![]
            },
        }
    }
}

/// The values given to option `find` in `args`, in order.
pub open spec fn option_values(args: Seq<Seq<char>>, find: Seq<char>) -> Seq<Seq<char>> {
    values_from(args, find, 0)
}

/// Law: where an argument is exactly the option's name (a name without `=`)
/// and another argument follows, the value is that next argument, whole and
/// unchanged, and the scan goes on after it.
pub proof fn lemma_separate_value_is_next_argument(args: Seq<Seq<char>>, find: Seq<char>, i: int)
    requires
        0 <= i,
        i + 1 < args.len(),
        args[i] == find,
        forall|j: int| 0 <= j < find.len() ==> find[j] != '=',
    ensures
        values_from(args, find, i) == seq![args[i + 1]] + values_from(args, find, i + 2),
        i == 0 ==> option_values(args, find)[0] == args[1],
{
    assert(!exists|p: int| is_first_at(find, '=', p));
}

/// Law: where an argument is the option's name (a name without `=`), `=`
/// and a text `v`, the value is `v`, whatever it holds (`=` too), and the
/// scan goes on with the next argument.
pub proof fn lemma_inline_value_is_rest(args: Seq<Seq<char>>, find: Seq<char>, v: Seq<char>, i: int)
    requires
        0 <= i < args.len(),
        args[i] == find + seq!['='] + v,
        forall|j: int| 0 <= j < find.len() ==> find[j] != '=',
    ensures
        values_from(args, find, i) == seq![v] + values_from(args, find, i + 1),
        i == 0 ==> option_values(args, find)[0] == v,
{
    let a = args[i];
    let p = find.len() as int;
    assert(a[p] == '=');
    assert forall|j: int| 0 <= j < p implies a[j] != '=' by {
        assert(a[j] == find[j]);
    }
    assert(is_first_at(a, '=', p));
    let q = choose|q: int| is_first_at(a, '=', q);
    assert(q == p);
    assert(a.take(p) =~= find);
    assert(a.skip(p + 1) =~= v);
}

/// `pred` was seen to turn down a string with the text `c`.
pub open spec fn turned_down<P: Fn(&str) -> bool>(pred: P, c: Seq<char>) -> bool {
    exists|s: &str| s@ == c && call_ensures(pred, (s,), false)
}

/// Finds the first value of the command-line option `find_arg` that `pred`
/// accepts. The option is written either `--arg=value` or `--arg value`.
pub fn arg_value<'a>(args: &'a [String], find_arg: &str, pred: impl Fn(&str) -> bool) -> (r:
    Option<&'a str>)
    requires
        forall|s: &str| call_requires(pred, (s,)),
    ensures
        ({
            let vals = option_values(texts(args@), find_arg@);
            match r {
                Some(v) => exists|k: int|
                    0 <= k < vals.len() && vals[k] == v@ && call_ensures(pred, (v,), true) && (
                    forall|j: int| 0 <= j < k ==> turned_down(pred, #[trigger] vals[j])),
                None => forall|j: int| 0 <= j < vals.len() ==> turned_down(pred, #[trigger] vals[j]),
            }
        }),
{
    let ghost all = texts(args@);
    let ghost vals = option_values(all, find_arg@);
    let ghost mut seen: Seq<Seq<char>> = seq![];
    let n = args.len();
    let mut i: usize = 0;
    while i < n
        invariant
            n == args@.len() == all.len(),
            all == texts(args@),
            vals == option_values(all, find_arg@),
            i <= n,
            vals == seen + values_from(all, find_arg@, i as int),
            forall|j: int| 0 <= j < seen.len() ==> turned_down(pred, #[trigger] seen[j]),
            forall|s: &str| call_requires(pred, (s,)),
        decreases n - i,
    {
        let arg: &'a str = args[i].as_str();
        assert(arg@ == all[i as int]);
        let cs = chars_of(arg);
        let len = cs.len();
        let eq = find_first(&cs, '=');
        let key: &'a str = match eq {
            Some(p) => arg.substring_char(0, p),
            None => arg,
        };
        proof {
            if let Some(p) = eq {
                assert(is_first_at(arg@, '=', p as int));
                let q = choose|q: int| is_first_at(arg@, '=', q);
                assert(q == p as int);
                assert(key@ =~= key_of(arg@));
            } else {
                assert(!exists|q: int| is_first_at(arg@, '=', q));
            }
        }
        if !same(key, find_arg) {
            i = i + 1;
        } else {
            let value: &'a str = match eq {
                Some(p) => arg.substring_char(p + 1, len),
                None => {
                    if i + 1 < n {
                        args[i + 1].as_str()
                    } else {
                        return None;
                    }
                },
            };
            proof {
                if let Some(p) = eq {
                    let q = choose|q: int| is_first_at(arg@, '=', q);
                    assert(q == p as int);
                    assert(value@ =~= inline_value(arg@).unwrap());
                } else {
                    assert(value@ == all[i + 1]);
                }
            }
            assert(values_from(all, find_arg@, i as int)[0] == value@);
            let ok = pred(value);
            if ok {
                proof {
                    let k = seen.len() as int;
                    assert(vals[k] == value@);
                    assert forall|j: int| 0 <= j < k implies turned_down(pred, #[trigger] vals[j]) by {
                        assert(vals[j] == seen[j]);
                    }
                }
                return Some(value);
            }
            proof {
                assert(turned_down(pred, value@));
                seen = seen.push(value@);
                assert(vals == seen + values_from(all, find_arg@, (i + if eq is Some { 1int } else { 2int })));
            }
            i = if eq.is_some() { i + 1 } else { i + 2 };
        }
    }
    None
}

} // verus!
