use vstd::prelude::*;
use vstd::string::*;

use crate::attempt::{attempt_map, failed, gathered, lemma_no_failure_keeps_all, succeeded};
use crate::error::{FailReadFileError, InputError};

verus! {

/// What an argument resolves to: standard input, or a handle that the caller's
/// `open` gave for it.
pub enum Resolved<H> {
    Stdin,
    Opened(H),
}

/// The argument that stands for standard input.
pub open spec fn is_sentinel(arg: Seq<char>) -> bool {
    arg == seq!['-']
}

/// Whether `arg` is exactly `-`.
pub fn is_stdin_arg(arg: &String) -> (r: bool)
    ensures
        r == is_sentinel(arg@),
{
    let s = arg.as_str();
    if s.unicode_len() == 1 && s.get_char(0) == '-' {
        assert(s@ =~= seq!['-']);
        true
    } else {
        false
    }
}

/// `r` is how the argument `arg` resolves when `open` gave `o` for it.
pub open spec fn opened_as<H>(
    arg: String,
    o: Result<H, std::io::Error>,
    r: Result<Resolved<H>, FailReadFileError>,
) -> bool {
    match o {
        Ok(h) => r == Ok::<Resolved<H>, FailReadFileError>(Resolved::Opened(h)),
        Err(e) => r matches Err(f) && f.inner == e && f.filename@ == arg@,
    }
}

/// `open` may be called on `arg`.
pub open spec fn can_open<H, F: Fn(&String) -> Result<H, std::io::Error>>(open: &F, arg: &String) -> bool {
    call_requires(*open, (arg,))
}

/// `r` is a possible resolution of `arg`: standard input for `-`, without a
/// call of `open`; otherwise what one call of `open` on it gave.
pub open spec fn attempt_ok<H, F: Fn(&String) -> Result<H, std::io::Error>>(
    open: &F,
    arg: String,
    r: Result<Resolved<H>, FailReadFileError>,
) -> bool {
    if is_sentinel(arg@) {
        r == Ok::<Resolved<H>, FailReadFileError>(Resolved::Stdin)
    } else {
        exists|o: Result<H, std::io::Error>| call_ensures(*open, (&arg,), o) && opened_as(arg, o, r)
    }
}

/// `r` is what the per-argument outcomes `outs` come to: every handle when
/// nothing failed, and otherwise every failure, gathered in one error.
pub open spec fn resolved_from<H>(
    outs: Seq<Result<Resolved<H>, FailReadFileError>>,
    r: Result<Vec<Resolved<H>>, InputError>,
) -> bool {
    match r {
        Ok(v) => failed(outs).len() == 0 && v@ == succeeded(outs),
        Err(e) => failed(outs).len() > 0 && e.badfiles@ == failed(outs),
    }
}

/// The arguments whose opening failed, in order.
pub open spec fn failing_paths<H>(
    args: Seq<String>,
    outs: Seq<Result<Resolved<H>, FailReadFileError>>,
) -> Seq<Seq<char>>
    recommends
        args.len() == outs.len(),
    decreases args.len(),
{
    if args.len() == 0 || outs.len() == 0 {
        Seq::empty()
    } else {
        let before = failing_paths(args.drop_last(), outs.drop_last());
        if outs.last() is Err {
            before.push(args.last()@)
        } else {
            before
        }
    }
}

/// Resolves one argument: `-` to standard input, anything else through `open`,
/// recording the argument beside the cause when that fails.
pub fn from_arg<H, F: Fn(&String) -> Result<H, std::io::Error>>(arg: &String, open: &F) -> (r:
    Result<Resolved<H>, FailReadFileError>)
    requires
        open.requires((arg,)),
    ensures
        attempt_ok(open, *arg, r),
{
    if is_stdin_arg(arg) {
        Ok(Resolved::Stdin)
    } else {
        let o = open(arg);
        assert(call_ensures(*open, (arg,), o));
        match o {
            Ok(h) => {
                let r = Ok(Resolved::Opened(h));
                assert(opened_as(*arg, o, r));
                r
            },
            Err(inner) => {
                let r = Err(FailReadFileError { inner, filename: arg.clone() });
                assert(opened_as(*arg, o, r));
                r
            },
        }
    }
}

/// Resolves every argument. With no arguments at all this is standard input
/// alone, and `open` is not called. Otherwise each argument is resolved in
/// order as [`from_arg`] does; if any of them cannot be opened, the error holds
/// every such failure and no handle is returned.
pub fn resolve<H, F: Fn(&String) -> Result<H, std::io::Error>>(args: &Vec<String>, open: F) -> (r:
    Result<Vec<Resolved<H>>, InputError>)
    requires
        forall|i: int| 0 <= i < args.len() ==> open.requires((&args[i],)),
    ensures
        args.len() == 0 ==> (r matches Ok(v) && v@ == seq![Resolved::<H>::Stdin]),
        args.len() > 0 ==> exists|outs: Seq<Result<Resolved<H>, FailReadFileError>>|
            {
                &&& outs.len() == args.len()
                &&& forall|i: int|
                    0 <= i < args.len() ==> attempt_ok(&open, args[i], #[trigger] outs[i])
                &&& resolved_from(outs, r)
            },
        r matches Err(e) ==> e.wf(),
{
    if args.len() == 0 {
        let mut v: Vec<Resolved<H>> = Vec::new();
        v.push(Resolved::Stdin);
        assert(v@ =~= seq![Resolved::<H>::Stdin]);
        return Ok(v);
    }
    let opener = &open;
    let one = |a: &String| -> (o: Result<Resolved<H>, FailReadFileError>)
        requires
            can_open(opener, a),
        ensures
            attempt_ok(opener, *a, o),
        { from_arg(a, opener) };
    let res = attempt_map(args, one);
    let ghost outs = choose|outs: Seq<Result<Resolved<H>, FailReadFileError>>|
        {
            &&& outs.len() == args.len()
            &&& forall|i: int| 0 <= i < args.len() ==> one.ensures((&args[i],), #[trigger] outs[i])
            &&& gathered(outs, res)
        };
    assert forall|i: int| 0 <= i < args.len() implies attempt_ok(
        &open,
        args[i],
        #[trigger] outs[i],
    ) by {
        assert(one.ensures((&args[i],), outs[i]));
    }
    match res {
        Ok(v) => Ok(v),
        Err(badfiles) => Err(InputError { badfiles }),
    }
}

proof fn lemma_failed_names<H>(args: Seq<String>, outs: Seq<Result<Resolved<H>, FailReadFileError>>)
    requires
        outs.len() == args.len(),
        forall|i: int|
            0 <= i < outs.len() && (#[trigger] outs[i]) is Err ==> outs[i]->Err_0.filename@
                == args[i]@ && !is_sentinel(args[i]@),
    ensures
        failed(outs).map_values(|f: FailReadFileError| f.filename@) =~= failing_paths(args, outs),
        forall|k: int|
            0 <= k < failing_paths(args, outs).len() ==> !is_sentinel(
                #[trigger] failing_paths(args, outs)[k],
            ),
    decreases outs.len(),
{
    if outs.len() > 0 {
        let (a, o) = (args.drop_last(), outs.drop_last());
        assert forall|i: int|
            0 <= i < o.len() && (#[trigger] o[i]) is Err implies o[i]->Err_0.filename@ == a[i]@
            && !is_sentinel(a[i]@) by {
            assert(o[i] == outs[i] && a[i] == args[i]);
        }
        lemma_failed_names(a, o);
        assert(outs[outs.len() - 1] == outs.last());
    }
}

/// Resolution fails exactly when some argument could not be opened, and then
/// its error names each such argument once, in the order the arguments came,
/// whether or not arguments that opened stand before or after them; `-` is
/// never among them.
pub proof fn lemma_failures_follow_arguments<H, F: Fn(&String) -> Result<H, std::io::Error>>(
    open: &F,
    args: Seq<String>,
    outs: Seq<Result<Resolved<H>, FailReadFileError>>,
    r: Result<Vec<Resolved<H>>, InputError>,
)
    requires
        outs.len() == args.len(),
        forall|i: int| 0 <= i < args.len() ==> attempt_ok(open, args[i], #[trigger] outs[i]),
        resolved_from(outs, r),
    ensures
        r is Err <==> failing_paths(args, outs).len() > 0,
        r matches Err(e) ==> e.badfiles@.map_values(|f: FailReadFileError| f.filename@)
            == failing_paths(args, outs),
        forall|k: int|
            0 <= k < failing_paths(args, outs).len() ==> !is_sentinel(
                #[trigger] failing_paths(args, outs)[k],
            ),
{
    assert forall|i: int|
        0 <= i < outs.len() && (#[trigger] outs[i]) is Err implies outs[i]->Err_0.filename@
        == args[i]@ && !is_sentinel(args[i]@) by {
        assert(attempt_ok(open, args[i], outs[i]));
    }
    lemma_failed_names(args, outs);
    assert(failed(outs).len() == failing_paths(args, outs).len());
}

/// When resolution succeeds there is one handle per argument, in the order of
/// the arguments: standard input wherever `-` stands, and elsewhere a handle
/// that `open` gave for that very argument.
pub proof fn lemma_handles_follow_arguments<H, F: Fn(&String) -> Result<H, std::io::Error>>(
    open: &F,
    args: Seq<String>,
    outs: Seq<Result<Resolved<H>, FailReadFileError>>,
    v: Vec<Resolved<H>>,
)
    requires
        outs.len() == args.len(),
        forall|i: int| 0 <= i < args.len() ==> attempt_ok(open, args[i], #[trigger] outs[i]),
        resolved_from(outs, Ok(v)),
    ensures
        v.len() == args.len(),
        forall|i: int| 0 <= i < args.len() && is_sentinel(args[i]@) ==> v@[i] is Stdin,
        forall|i: int|
            0 <= i < args.len() && !is_sentinel(args[i]@) ==> (v@[i] matches Resolved::Opened(h)
                && call_ensures(*open, (&args[i],), Ok::<H, std::io::Error>(h))),
{
    lemma_no_failure_keeps_all(outs);
    assert forall|i: int|
        0 <= i < args.len() && !is_sentinel(args[i]@) implies (v@[i] matches Resolved::Opened(h)
        && call_ensures(*open, (&args[i],), Ok::<H, std::io::Error>(h))) by {
        assert(attempt_ok(open, args[i], outs[i]));
        assert(outs[i] is Ok);
        let o = choose|o: Result<H, std::io::Error>|
            call_ensures(*open, (&args[i],), o) && opened_as(args[i], o, outs[i]);
        assert(o is Ok);
    }
    assert forall|i: int| 0 <= i < args.len() && is_sentinel(args[i]@) implies v@[i] is Stdin by {
        assert(attempt_ok(open, args[i], outs[i]));
    }
}

} // verus!
