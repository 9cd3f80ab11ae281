//! Root-directory selection: the first `--dir` flag on the command line
//! names the root to serve from; without one (or with nothing after it)
//! the compiled-in default applies. The caller collects the arguments;
//! the choice itself is verified here.

use vstd::prelude::*;
use crate::strutil::str_eq;

verus! {

/// Index of the first `--dir` among the arguments, or -1 when absent.
pub open spec fn dir_flag_index(args: Seq<Seq<char>>) -> int
    decreases args.len(),
{
    if args.len() == 0 {
        -1
    } else if args[0] == "--dir"@ {
        0
    } else {
        let r = dir_flag_index(args.skip(1));
        if r < 0 {
            -1
        } else {
            r + 1
        }
    }
}

pub proof fn lemma_dir_flag_index_is(args: Seq<Seq<char>>, i: int)
    requires
        0 <= i < args.len(),
        args[i] == "--dir"@,
        forall|k: int| 0 <= k < i ==> args[k] != "--dir"@,
    ensures
        dir_flag_index(args) == i,
    decreases args.len(),
{
    if i == 0 {
    } else {
        assert forall|k: int| 0 <= k < i - 1 implies args.skip(1)[k] != "--dir"@ by {
            assert(args.skip(1)[k] == args[k + 1]);
        }
        assert(args.skip(1)[i - 1] == args[i]);
        lemma_dir_flag_index_is(args.skip(1), i - 1);
    }
}

pub proof fn lemma_dir_flag_index_none(args: Seq<Seq<char>>)
    requires
        forall|k: int| 0 <= k < args.len() ==> args[k] != "--dir"@,
    ensures
        dir_flag_index(args) < 0,
    decreases args.len(),
{
    if args.len() == 0 {
    } else {
        assert forall|k: int| 0 <= k < args.skip(1).len() implies args.skip(1)[k] != "--dir"@ by {
            assert(args.skip(1)[k] == args[k + 1]);
        }
        lemma_dir_flag_index_none(args.skip(1));
    }
}

/// The root directory the arguments select: what follows the first
/// `--dir`, or the compiled-in default.
pub open spec fn root_dir_of(args: Seq<Seq<char>>) -> Seq<char> {
    let i = dir_flag_index(args);
    if i >= 0 && i + 1 < args.len() {
        args[i + 1]
    } else {
        "./../web/dist"@
    }
}

/// Picks the root directory out of the command-line arguments.
pub fn root_dir_from_args(args: &Vec<String>) -> (r: String)
    ensures
        r@ == root_dir_of(args.deep_view()),
{
    let ghost av = args.deep_view();
    let n = args.len();
    proof {
        assert(av.len() == n);
    }
    let mut i: usize = 0;
    while i < n
        invariant
            av == args.deep_view(),
            av.len() == n,
            n == args@.len(),
            0 <= i <= n,
            forall|k: int| 0 <= k < i ==> av[k] != "--dir"@,
        decreases n - i,
    {
        proof {
            assert(av[i as int] == args@[i as int]@);
        }
        if str_eq(args[i].as_str(), "--dir") {
            proof {
                lemma_dir_flag_index_is(av, i as int);
            }
            if i + 1 < n {
                proof {
                    assert(av[i + 1] == args@[i + 1]@);
                }
                return args[i + 1].clone();
            }
            return "./../web/dist".to_owned();
        }
        i += 1;
    }
    proof {
        lemma_dir_flag_index_none(av);
    }
    "./../web/dist".to_owned()
}

} // verus!
