//! The debug text of a pool.

use vstd::prelude::*;

verus! {

/// The decimal digit of `d`.
pub open spec fn digit(d: nat) -> char
    recommends
        d < 10,
{
    (('0' as nat) + d) as char
}

/// `n` in decimal, without leading zeros.
pub open spec fn decimal(n: nat) -> Seq<char>
    decreases n,
{
    if n < 10 {
        seq![digit(n)]
    } else {
        decimal(n / 10).push(digit(n % 10))
    }
}

/// What the `Debug` of the standard library prints for a string: the text in double quotes,
/// with escapes.
pub uninterp spec fn quoted(text: Seq<char>) -> Seq<char>;

/// Calls the `Debug` of `String` in the standard library; [`quoted`] names what it prints.
#[verifier::external_body]
fn quote(text: &String) -> (r: String)
    ensures
        r@ == quoted(text@),
{
    format!("{:?}", text)
}

/// The text of an optional name.
pub open spec fn optional(name: Option<Seq<char>>) -> Seq<char> {
    match name {
        None => "None"@,
        Some(text) => "Some("@ + quoted(text) + ")"@,
    }
}

/// The decimal digit of `d`.
fn digit_text(d: usize) -> (r: &'static str)
    requires
        d < 10,
    ensures
        r@ == seq![digit(d as nat)],
{
    proof {
        reveal_strlit("0");
        reveal_strlit("1");
        reveal_strlit("2");
        reveal_strlit("3");
        reveal_strlit("4");
        reveal_strlit("5");
        reveal_strlit("6");
        reveal_strlit("7");
        reveal_strlit("8");
        reveal_strlit("9");
    }
    let r = match d {
        0 => "0",
        1 => "1",
        2 => "2",
        3 => "3",
        4 => "4",
        5 => "5",
        6 => "6",
        7 => "7",
        8 => "8",
        _ => "9",
    };
    assert(r@ =~= seq![digit(d as nat)]);
    r
}

/// Appends `n` in decimal to `text`.
pub fn push_decimal(text: &mut String, n: usize)
    ensures
        final(text)@ == old(text)@ + decimal(n as nat),
    decreases n,
{
    if n < 10 {
        text.append(digit_text(n));
    } else {
        push_decimal(text, n / 10);
        text.append(digit_text(n % 10));
        assert(text@ =~= old(text)@ + decimal(n as nat));
    }
}

/// Appends `Some(..)` round a text that is already quoted.
pub fn push_some(text: &mut String, inner: &str)
    ensures
        final(text)@ == old(text)@ + ("Some("@ + inner@ + ")"@),
{
    text.append("Some(");
    text.append(inner);
    text.append(")");
    assert(text@ =~= old(text)@ + ("Some("@ + inner@ + ")"@));
}

/// Appends the text of an optional name to `text`.
pub fn push_optional(text: &mut String, name: &Option<String>)
    ensures
        final(text)@ == old(text)@ + optional(crate::settings::name_view(*name)),
{
    match name {
        None => text.append("None"),
        Some(s) => {
            let q = quote(s);
            push_some(text, q.as_str());
        },
    }
}

/// The text of a pool whose name has the text `name`.
pub open spec fn pool_text(name: Seq<char>, queued: nat, active: nat, max: nat) -> Seq<char> {
    "Pool { name: "@ + name + ", queued_count: "@ + decimal(queued) + ", active_count: "@ + decimal(
        active,
    ) + ", max_count: "@ + decimal(max) + " }"@
}

/// The text of a pool whose name has the text `name`.
pub fn format_pool(name: &str, queued: usize, active: usize, max: usize) -> (r: String)
    ensures
        r@ == pool_text(name@, queued as nat, active as nat, max as nat),
{
    let mut text = String::new();
    text.append("Pool { name: ");
    text.append(name);
    text.append(", queued_count: ");
    push_decimal(&mut text, queued);
    text.append(", active_count: ");
    push_decimal(&mut text, active);
    text.append(", max_count: ");
    push_decimal(&mut text, max);
    text.append(" }");
    assert(text@ =~= pool_text(name@, queued as nat, active as nat, max as nat));
    text
}

/// The text of a pool with that name.
pub fn debug_pool(name: &Option<String>, queued: usize, active: usize, max: usize) -> (r: String)
    ensures
        r@ == pool_text(
            optional(crate::settings::name_view(*name)),
            queued as nat,
            active as nat,
            max as nat,
        ),
{
    let mut text = String::new();
    push_optional(&mut text, name);
    proof {
        assert(text@ =~= optional(crate::settings::name_view(*name)));
    }
    format_pool(text.as_str(), queued, active, max)
}

} // verus!
