//! The names that a program gives to the natural numbers.

use crate::ceptre::error::Error;
use crate::ceptre::json::{Builtin, BuiltinTypes, Program};
use vstd::prelude::*;

verus! {

/// The names of the natural numbers in a program: of the type, of zero, and
/// of the successor.
#[derive(Clone, Debug)]
pub struct Builtins {
    pub nat: String,
    pub nat_zero: String,
    pub nat_succ: String,
}

/// The first position in `builtins`, from `from` on, that names `kind`; the
/// length of `builtins` where none does.
pub open spec fn first_builtin(builtins: Seq<Builtin>, kind: BuiltinTypes, from: int) -> int
    decreases builtins.len() - from,
{
    if from < 0 || from >= builtins.len() {
        builtins.len() as int
    } else if builtins[from].builtin == kind {
        from
    } else {
        first_builtin(builtins, kind, from + 1)
    }
}

/// The first position in `builtins` that names `kind`, or `None`.
pub fn find_builtin(builtins: &Vec<Builtin>, kind: BuiltinTypes) -> (at: Option<usize>)
    ensures
        match at {
            Some(k) => k < builtins@.len() && k == first_builtin(builtins@, kind, 0),
            None => first_builtin(builtins@, kind, 0) == builtins@.len(),
        },
{
    let mut k: usize = 0;
    while k < builtins.len()
        invariant
            k <= builtins@.len(),
            first_builtin(builtins@, kind, 0) == first_builtin(builtins@, kind, k as int),
        decreases builtins@.len() - k,
    {
        if builtins[k].builtin == kind {
            return Some(k);
        }
        k += 1;
    }
    None
}

impl Builtins {
    /// One of the three names of the natural numbers is missing.
    pub open spec fn spec_missing(builtins: Seq<Builtin>) -> bool {
        ||| first_builtin(builtins, BuiltinTypes::NAT, 0) == builtins.len()
        ||| first_builtin(builtins, BuiltinTypes::NAT_ZERO, 0) == builtins.len()
        ||| first_builtin(builtins, BuiltinTypes::NAT_SUCC, 0) == builtins.len()
    }

    /// Finds the names of the natural numbers in a program. All three must be
    /// there. Where one is missing the error names it: the type before zero, and
    /// zero before the successor.
    pub fn new(program: &Program) -> (found: Result<Self, Error<'static>>)
        ensures
            ({
                let builtins = program.builtins@;
                let base = first_builtin(builtins, BuiltinTypes::NAT, 0);
                let zero = first_builtin(builtins, BuiltinTypes::NAT_ZERO, 0);
                let succ = first_builtin(builtins, BuiltinTypes::NAT_SUCC, 0);
                match found {
                    Ok(names) => {
                        &&& base < builtins.len()
                        &&& zero < builtins.len()
                        &&& succ < builtins.len()
                        &&& names.nat == builtins[base].name
                        &&& names.nat_zero == builtins[zero].name
                        &&& names.nat_succ == builtins[succ].name
                    },
                    Err(Error::BuiltinNotFound(BuiltinTypes::NAT)) => base == builtins.len(),
                    Err(Error::BuiltinNotFound(BuiltinTypes::NAT_ZERO)) => base < builtins.len()
                        && zero == builtins.len(),
                    Err(Error::BuiltinNotFound(BuiltinTypes::NAT_SUCC)) => base < builtins.len()
                        && zero < builtins.len() && succ == builtins.len(),
                    Err(_) => false,
                }
            }),
            found.is_err() <==> Builtins::spec_missing(program.builtins@),
    {
        let n = find_builtin(&program.builtins, BuiltinTypes::NAT);
        let s = find_builtin(&program.builtins, BuiltinTypes::NAT_SUCC);
        let z = find_builtin(&program.builtins, BuiltinTypes::NAT_ZERO);
        let nat_name = match n {
            Some(at) => program.builtins[at].name.clone(),
            None => {
                return Err(Error::BuiltinNotFound(BuiltinTypes::NAT));
            },
        };
        let nat_zero = match z {
            Some(at) => program.builtins[at].name.clone(),
            None => {
                return Err(Error::BuiltinNotFound(BuiltinTypes::NAT_ZERO));
            },
        };
        let nat_succ = match s {
            Some(at) => program.builtins[at].name.clone(),
            None => {
                return Err(Error::BuiltinNotFound(BuiltinTypes::NAT_SUCC));
            },
        };
        Ok(Builtins { nat: nat_name, nat_zero, nat_succ })
    }
}

} // verus!
