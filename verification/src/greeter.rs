//! The greeter library: addition and a greeting message.
use vstd::prelude::*;

verus! {

/// Adds two numbers.
pub fn add(left: u64, right: u64) -> (sum: u64)
    requires
        left + right <= u64::MAX,
    ensures
        sum == left + right,
{
    left + right
}

/// The greeting for `name`.
pub open spec fn greeting(name: Seq<char>) -> Seq<char> {
    "hello "@ + name + " 欢迎来到 Rust 世界"@
}

/// Builds the greeting message for `name`.
pub fn build_greeter(name: &str) -> (message: String)
    ensures
        message@ == greeting(name@),
{
    let mut message = "hello ".to_owned();
    message.append(name);
    message.append(" 欢迎来到 Rust 世界");
    message
}

/// The greeting holds the name, right after `hello `.
pub proof fn law_greeting_contains_name(name: Seq<char>)
    ensures
        greeting(name).subrange(6, 6 + name.len() as int) == name,
{
    reveal_strlit("hello ");
    assert(greeting(name).subrange(6, 6 + name.len() as int) =~= name);
}

} // verus!
