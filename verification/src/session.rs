//! The builtins that speak with the user, `echo` and `read`, and `sleep`.

use vstd::prelude::*;
use vstd::string::*;
use crate::arguments::{operand, operand_of, operands_of};
use crate::text::{join, joined, trim, trimmed};
use crate::variables::{assigned, VariableStore};

verus! {

/// `echo`: the text to print, which is all of `args` with one space between
/// each two, without the whitespace at either end of the whole, and a line
/// break. Nothing among `args` is taken for the command's name, and nothing
/// in them is expanded.
pub fn echo(args: &[String]) -> (out: String)
    ensures
        out@ == trimmed(joined(args.deep_view(), " "@)) + "\n"@,
{
    let text = join(args, " ");
    let mut out = String::from_str(trim(text.as_str()));
    out.append("\n");
    out
}

/// What `read` prints before it waits for the value of the variable that
/// `name` asks for: the name without the whitespace around it, and `=`.
pub fn read_prompt(name: &str) -> (out: String)
    ensures
        out@ == trimmed(name@) + "="@,
{
    let mut out = String::from_str(trim(name));
    out.append("=");
    out
}

/// What `read` prints where the prompt could not be flushed, for `cause`.
/// It goes on to wait for the line all the same.
pub fn read_flush_failure(cause: &str) -> (out: String)
    ensures
        out@ == cause@ + ": Failed to flush stdout\n"@,
{
    let mut out = String::from_str(cause);
    out.append(": Failed to flush stdout\n");
    out
}

/// The line that answered the prompt for the operand at `index`, counted
/// from 0: `None` where the input had ended, or where `lines` does not reach
/// that far.
pub open spec fn answer(lines: Seq<Option<Seq<char>>>, index: int) -> Option<Seq<char>> {
    if 0 <= index < lines.len() {
        lines[index]
    } else {
        None
    }
}

/// The variables after the prompt for one name was answered: the line,
/// without the whitespace around it, is assigned to the name, without the
/// whitespace around it. Without a line nothing is assigned.
pub open spec fn read_one(
    store: Map<Seq<char>, Seq<char>>,
    name: Seq<char>,
    line: Option<Seq<char>>,
) -> Map<Seq<char>, Seq<char>> {
    match line {
        Some(text) => assigned(store, trimmed(name), trimmed(text)),
        None => store,
    }
}

/// The variables after `read` went through `names` from the first to the
/// last, with `lines` as the answers in the same order.
pub open spec fn read_all(
    store: Map<Seq<char>, Seq<char>>,
    names: Seq<Seq<char>>,
    lines: Seq<Option<Seq<char>>>,
) -> Map<Seq<char>, Seq<char>>
    decreases names.len(),
{
    if names.len() == 0 {
        store
    } else {
        read_one(
            read_all(store, names.drop_last(), lines),
            names.last(),
            answer(lines, names.len() - 1),
        )
    }
}

/// With one name and one line, what `read` leaves behind is that one
/// assignment: the trimmed line under the trimmed name.
pub proof fn lemma_read_of_one_name(
    store: Map<Seq<char>, Seq<char>>,
    name: Seq<char>,
    line: Seq<char>,
)
    ensures
        read_all(store, seq![name], seq![Some(line)]) == assigned(
            store,
            trimmed(name),
            trimmed(line),
        ),
{
    let names = seq![name];
    assert(read_all(store, names.drop_last(), seq![Some(line)]) == store);
}

/// Where the input has ended before the first line, `read` leaves the
/// variables as they are, whatever it was to ask for.
pub proof fn lemma_read_without_input(store: Map<Seq<char>, Seq<char>>, names: Seq<Seq<char>>)
    ensures
        read_all(store, names, Seq::empty()) == store,
    decreases names.len(),
{
    if names.len() > 0 {
        lemma_read_without_input(store, names.drop_last());
    }
}

/// The prompts of `read`, one for each operand, in the order in which they
/// are printed and answered.
pub open spec fn read_prompts_of(names: Seq<Seq<char>>) -> Seq<Seq<char>> {
    Seq::new(names.len(), |i: int| trimmed(names[i]) + "="@)
}

/// What `read` asks for: a line of input for each operand, from the first to
/// the last, each after its prompt was printed and flushed.
pub fn read_prompts(args: &[String]) -> (prompts: Vec<String>)
    ensures
        prompts.deep_view() == read_prompts_of(operands_of(args.deep_view())),
{
    let ghost names = operands_of(args.deep_view());
    let mut prompts: Vec<String> = Vec::new();
    if args.len() > 1 {
        let mut i: usize = 1;
        while i < args.len()
            invariant
                1 <= i <= args.len(),
                names == args.deep_view().skip(1),
                prompts.deep_view() == read_prompts_of(names.take(i - 1)),
            decreases args.len() - i,
        {
            let ghost before = prompts.deep_view();
            prompts.push(read_prompt(args[i].as_str()));
            proof {
                assert(prompts.deep_view() =~= before.push(trimmed(args[i as int]@) + "="@));
            }
            i = i + 1;
        }
    }
    prompts
}

/// `read`: assigns to each operand, from the first to the last, the line
/// that answered its prompt. `lines` holds the answers in the order of
/// `read_prompts(args)`, `None` where the input had ended.
pub fn read(args: &[String], lines: &[Option<String>], variables: &mut VariableStore)
    ensures
        final(variables)@ == read_all(
            old(variables)@,
            operands_of(args.deep_view()),
            lines.deep_view(),
        ),
{
    if args.len() > 1 {
        let ghost names = args.deep_view().skip(1);
        let mut i: usize = 1;
        while i < args.len()
            invariant
                1 <= i <= args.len(),
                names == args.deep_view().skip(1),
                variables@ == read_all(old(variables)@, names.take(i - 1), lines.deep_view()),
            decreases args.len() - i,
        {
            proof {
                assert(names.take(i as int).drop_last() =~= names.take(i - 1));
            }
            if i - 1 < lines.len() {
                match &lines[i - 1] {
                    Some(text) => {
                        variables.set(trim(args[i].as_str()), trim(text.as_str()));
                    },
                    None => {},
                }
            }
            i = i + 1;
        }
        proof {
            assert(names.take(args.len() - 1) =~= names);
        }
    }
}

/// `sleep`: for how many seconds to do nothing. `number` is what the
/// operand is as a number, 0 where it is none; it is not looked at where
/// there is no operand, and the time is 0.
pub fn sleep(args: &[String], number: usize) -> (seconds: u64)
    ensures
        seconds == (if operand_of(args.deep_view()) is Some {
            number as int
        } else {
            0
        }),
{
    match operand(args) {
        Some(_) => number as u64,
        None => 0,
    }
}

} // verus!
