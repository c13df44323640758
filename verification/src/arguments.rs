//! The arguments of a command. The first is the command's name, the one
//! after it the command's operand.

use vstd::prelude::*;

verus! {

/// The operand among `args`, if there is one.
pub open spec fn operand_of(args: Seq<Seq<char>>) -> Option<Seq<char>> {
    if args.len() > 1 {
        Some(args[1])
    } else {
        None
    }
}

/// The operand among `args`, or `default` where there is none.
pub open spec fn operand_or(args: Seq<Seq<char>>, default: Seq<char>) -> Seq<char> {
    match operand_of(args) {
        Some(text) => text,
        None => default,
    }
}

/// The arguments that follow the command's name, in their order.
pub open spec fn operands_of(args: Seq<Seq<char>>) -> Seq<Seq<char>> {
    if args.len() > 1 {
        args.skip(1)
    } else {
        Seq::empty()
    }
}

/// The operand of the command, if it was given one.
pub fn operand(args: &[String]) -> (found: Option<&String>)
    ensures
        match found {
            Some(text) => operand_of(args.deep_view()) == Some(text@),
            None => operand_of(args.deep_view()) is None,
        },
{
    if args.len() > 1 {
        Some(&args[1])
    } else {
        None
    }
}

/// The arguments that follow the command's name, in their order.
pub fn operands(args: &[String]) -> (rest: Vec<String>)
    ensures
        rest.deep_view() == operands_of(args.deep_view()),
{
    let mut rest: Vec<String> = Vec::new();
    if args.len() > 1 {
        let mut i: usize = 1;
        while i < args.len()
            invariant
                1 <= i <= args.len(),
                rest.deep_view() == args.deep_view().subrange(1, i as int),
            decreases args.len() - i,
        {
            rest.push(args[i].clone());
            proof {
                let taken = args.deep_view().subrange(1, i as int);
                assert(taken.push(args[i as int]@) =~= args.deep_view().subrange(1, i + 1));
            }
            i = i + 1;
        }
    }
    rest
}

} // verus!
