//! Command-line flag lookup.

use vstd::prelude::*;

verus! {

/// Index of the first argument equal to `flag`, if any.
pub open spec fn first_index_of(args: Seq<String>, flag: Seq<char>) -> Option<int> {
    if exists|i: int| 0 <= i < args.len() && (#[trigger] args[i])@ == flag {
        Some(
            choose|i: int|
                0 <= i < args.len() && (#[trigger] args[i])@ == flag && forall|j: int|
                    0 <= j < i ==> (#[trigger] args[j])@ != flag,
        )
    } else {
        None
    }
}

/// The value of `flag`: the argument right after its first occurrence, or
/// `default` when the flag is absent or is the last argument.
pub open spec fn spec_arg_value(args: Seq<String>, flag: Seq<char>, default: Seq<char>) -> Seq<char> {
    match first_index_of(args, flag) {
        Some(i) => if i + 1 < args.len() {
            args[i + 1]@
        } else {
            default
        },
        None => default,
    }
}

/// The argument that follows the first occurrence of `flag`, or `default`.
pub fn arg_value(args: &[String], flag: &str, default: &str) -> (r: String)
    ensures
        r@ == spec_arg_value(args@, flag@, default@),
{
    let target = flag.to_owned();
    let mut i: usize = 0;
    while i < args.len()
        invariant
            i <= args@.len(),
            target@ == flag@,
            forall|j: int| 0 <= j < i ==> (#[trigger] args@[j])@ != flag@,
        decreases args@.len() - i,
    {
        if args[i] == target {
            proof {
                let s = args@;
                let k = choose|k: int|
                    0 <= k < s.len() && (#[trigger] s[k])@ == flag@ && forall|j: int|
                        0 <= j < k ==> (#[trigger] s[j])@ != flag@;
                assert(0 <= k < s.len() && s[k]@ == flag@ && forall|j: int|
                    0 <= j < k ==> (#[trigger] s[j])@ != flag@);
                assert(k == i as int);
            }
            if i + 1 < args.len() {
                return args[i + 1].clone();
            } else {
                return default.to_owned();
            }
        }
        i = i + 1;
    }
    default.to_owned()
}

} // verus!
