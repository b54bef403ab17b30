//! Rendering a prompt: retrieved contexts as a numbered block, then the
//! question.

use vstd::prelude::*;
use vstd::string::StringExecFns;

verus! {

/// The character of a decimal digit.
pub open spec fn digit(d: nat) -> char
    recommends
        d < 10,
{
    if d == 0 {
        '0'
    } else if d == 1 {
        '1'
    } else if d == 2 {
        '2'
    } else if d == 3 {
        '3'
    } else if d == 4 {
        '4'
    } else if d == 5 {
        '5'
    } else if d == 6 {
        '6'
    } else if d == 7 {
        '7'
    } else if d == 8 {
        '8'
    } else {
        '9'
    }
}

/// A number in decimal, without leading zeros.
pub open spec fn decimal(n: nat) -> Seq<char>
    decreases n,
{
    if n < 10 {
        seq![digit(n)]
    } else {
        decimal(n / 10).push(digit(n % 10))
    }
}

/// One line of the context block: its position in brackets, a space, the
/// context, a line feed.
pub open spec fn context_line(position: nat, context: Seq<char>) -> Seq<char> {
    seq!['['] + decimal(position) + seq![']', ' '] + context + seq!['\n']
}

/// The context block: a heading, then one line for each context, numbered
/// from one.
pub open spec fn context_block(contexts: Seq<Seq<char>>) -> Seq<char>
    decreases contexts.len(),
{
    if contexts.len() == 0 {
        seq!['C', 'o', 'n', 't', 'e', 'x', 't', ':', '\n']
    } else {
        context_block(contexts.drop_last()) + context_line(contexts.len(), contexts.last())
    }
}

/// The prompt: the context block, an empty line, and the question.
pub open spec fn prompt(contexts: Seq<Seq<char>>, query: Seq<char>) -> Seq<char> {
    context_block(contexts) + seq!['\n', 'Q', 'u', 'e', 's', 't', 'i', 'o', 'n', ':', ' '] + query
}

fn digit_text(d: usize) -> (s: &'static str)
    requires
        d < 10,
    ensures
        s@ == seq![digit(d as nat)],
{
    proof {
        reveal_strlit("0");
        reveal_strlit("1");
        reveal_strlit("2");
        reveal_strlit("3");
        reveal_strlit("4");
        reveal_strlit("5");
        reveal_strlit("6");
        reveal_strlit("7");
        reveal_strlit("8");
        reveal_strlit("9");
    }
    let s = if d == 0 {
        "0"
    } else if d == 1 {
        "1"
    } else if d == 2 {
        "2"
    } else if d == 3 {
        "3"
    } else if d == 4 {
        "4"
    } else if d == 5 {
        "5"
    } else if d == 6 {
        "6"
    } else if d == 7 {
        "7"
    } else if d == 8 {
        "8"
    } else {
        "9"
    };
    s
}

/// Renders a number in decimal.
pub fn render_decimal(n: usize) -> (s: String)
    ensures
        s@ == decimal(n as nat),
{
    let mut rest: usize = n / 10;
    let mut s: String = digit_text(n % 10).to_owned();
    while rest > 0
        invariant
            rest > 0 ==> decimal(n as nat) == decimal(rest as nat) + s@,
            rest == 0 ==> decimal(n as nat) == s@,
        decreases rest,
    {
        let ghost tail = s@;
        let head: String = digit_text(rest % 10).to_owned();
        s = head.concat(s.as_str());
        assert(decimal(rest as nat) + tail =~= decimal((rest / 10) as nat) + s@ || rest < 10);
        rest = rest / 10;
    }
    s
}

/// The views of a list of texts.
pub open spec fn context_views(contexts: Seq<String>) -> Seq<Seq<char>> {
    contexts.map_values(|c: String| c@)
}

/// Renders retrieved contexts and a question as one prompt.
pub fn format_prompt(contexts: &Vec<String>, query: &str) -> (text: String)
    ensures
        text@ == prompt(context_views(contexts@), query@),
{
    proof {
        reveal_strlit("Context:\n");
        reveal_strlit("\nQuestion: ");
    }
    let ghost views = context_views(contexts@);
    let mut text: String = "Context:\n".to_owned();
    let mut i: usize = 0;
    while i < contexts.len()
        invariant
            i <= contexts.len(),
            views == context_views(contexts@),
            text@ == context_block(views.take(i as int)),
        decreases contexts.len() - i,
    {
        let ghost block = text@;
        let number: String = render_decimal(i + 1);
        text.append("[");
        text.append(number.as_str());
        text.append("] ");
        text.append(contexts[i].as_str());
        text.append("\n");
        proof {
            reveal_strlit("[");
            reveal_strlit("] ");
            reveal_strlit("\n");
            assert(views.take(i + 1).drop_last() =~= views.take(i as int));
            assert(text@ =~= block + context_line((i + 1) as nat, contexts@[i as int]@));
        }
        i += 1;
    }
    proof {
        assert(views.take(contexts@.len() as int) =~= views);
    }
    text.append("\nQuestion: ");
    text.append(query);
    assert(text@ =~= prompt(views, query@));
    text
}

} // verus!
