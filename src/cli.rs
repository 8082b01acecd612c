//! Command-line option lookup.

use vstd::prelude::*;

verus! {

/// The index of the first argument at or after `i` whose text is `key`, or `args.len()`.
pub open spec fn key_position(args: Seq<String>, key: Seq<char>, i: int) -> int
    decreases args.len() - i,
{
    if i < 0 || i >= args.len() {
        args.len() as int
    } else if args[i]@ == key {
        i
    } else {
        key_position(args, key, i + 1)
    }
}

/// The value that follows the first `key` in `args`, if both are there.
pub open spec fn arg_value(args: Seq<String>, key: Seq<char>) -> Option<String> {
    let p = key_position(args, key, 0);
    if p + 1 < args.len() { Some(args[p + 1]) } else { None }
}

/// The argument that follows the first occurrence of `key`, e.g. the port after `--port`.
pub fn get_arg(args: &[String], key: &str) -> (r: Option<String>)
    ensures
        r == arg_value(args@, key@),
{
    let k = key.to_owned();
    let n = args.len();
    let mut i: usize = 0;
    while i < n
        invariant
            n == args@.len(),
            0 <= i <= n,
            k@ == key@,
            key_position(args@, key@, 0) == key_position(args@, key@, i as int),
        decreases n - i,
    {
        if args[i] == k {
            if i + 1 < n {
                return Some(args[i + 1].clone());
            }
            return None;
        }
        i = i + 1;
    }
    None
}

} // verus!
