//! The commands, each with the mathematical statement of its answer.

use vstd::prelude::*;
use vstd::string::StringExecFns;

verus! {

/// The words that stand before the name in every greeting.
pub open spec fn greeting_opening() -> Seq<char> {
    "Hello, "@
}

/// The words that stand after the name in every greeting.
pub open spec fn greeting_closing() -> Seq<char> {
    "! From Rust."@
}

/// The greeting for `name`: the opening, the name as it was given, the closing.
pub open spec fn greeting(name: Seq<char>) -> Seq<char> {
    greeting_opening() + name + greeting_closing()
}

/// Example command: greet.
///
/// The user interface calls it as `invoke("greet", { name: "World" })`.
/// Any name is accepted, the empty one too, and nothing in it is changed.
pub fn greet(name: &str) -> (out: String)
    ensures
        out@ == greeting(name@),
{
    let mut out = String::from_str("Hello, ");
    out.append(name);
    out.append("! From Rust.");
    out
}

/// Asking twice gives the same text: whatever two calls of `greet` answer to
/// one name, the two answers are equal, since the answer depends on the name
/// alone.
pub proof fn lemma_greet_repeatable(name: Seq<char>, first: Seq<char>, second: Seq<char>)
    requires
        first == greeting(name),
        second == greeting(name),
    ensures
        first == second,
{
}

/// The name stands in the greeting as it was given: the greeting is as long
/// as the opening, the name and the closing together, it starts with the
/// opening, ends with the closing, and between them every character of the
/// name stands at its place, whatever character it is.
pub proof fn lemma_greeting_keeps_name(name: Seq<char>)
    ensures
        greeting(name).len() == greeting_opening().len() + name.len() + greeting_closing().len(),
        greeting(name).subrange(0, greeting_opening().len() as int) == greeting_opening(),
        greeting(name).subrange(
            greeting_opening().len() as int,
            (greeting_opening().len() + name.len()) as int,
        ) == name,
        greeting(name).subrange(
            (greeting_opening().len() + name.len()) as int,
            greeting(name).len() as int,
        ) == greeting_closing(),
        forall|i: int|
            0 <= i < name.len() ==> greeting(name)[greeting_opening().len() + i] == name[i],
{
}

/// No two names share a greeting: since nothing in a name is changed or
/// dropped, equal greetings come from equal names.
pub proof fn lemma_greeting_tells_names_apart(a: Seq<char>, b: Seq<char>)
    requires
        greeting(a) == greeting(b),
    ensures
        a == b,
{
    lemma_greeting_keeps_name(a);
    lemma_greeting_keeps_name(b);
}

} // verus!
