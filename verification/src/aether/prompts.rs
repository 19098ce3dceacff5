//! The interactive prompts of Aether and their answers.

use crate::text::{
    chars_of, ends_with, has_run, has_tail, is_space, law_a_run_stands_between,
    law_a_tail_is_what_stands_at_the_end, law_trimming_takes_the_space_around, trim_end,
    trimmed_end,
};
use vstd::prelude::*;

verus! {

/// What Aether prints when it waits for a one-time code.
pub const ACCESS_CODE_PROMPT: &'static str = "Enter the code:";

/// A prompt that Aether can ask, and the answer to it.
pub struct PromptRule {
    /// The section that the prompt belongs to.
    pub id: String,
    /// The text at the end of the line that announces the prompt.
    pub header: String,
    /// What to type at the prompt.
    pub answer: String,
}

impl PromptRule {
    /// Whether `line` announces this prompt.
    pub open spec fn announces(&self, line: Seq<char>) -> bool {
        has_tail(line, self.header@)
    }

    /// Whether `line` announces this prompt.
    pub fn header_matches(&self, line: &str) -> (b: bool)
        ensures
            b == self.announces(line@),
    {
        ends_with(line, self.header.as_str())
    }
}

/// Whether `partial` looks like a prompt for a choice: apart from white space,
/// it ends with a colon.
pub open spec fn is_choice_prompt(partial: Seq<char>) -> bool {
    let t = trimmed_end(partial);
    t.len() > 0 && t.last() == ':'
}

/// Whether `partial` asks for a one-time code.
pub open spec fn is_code_prompt(partial: Seq<char>) -> bool {
    has_run(partial, ACCESS_CODE_PROMPT@)
}

/// Whether `partial` looks like a prompt for a choice.
pub fn looks_like_choice_prompt(partial: &str) -> (b: bool)
    ensures
        b == is_choice_prompt(partial@),
{
    let t = chars_of(trim_end(partial).as_str());
    t.len() > 0 && t[t.len() - 1] == ':'
}

/// What looks like a prompt for a choice: any text that ends with a colon, with
/// any white space after it; and no text that, apart from white space, ends
/// with anything else.
pub proof fn law_a_choice_prompt_ends_with_a_colon(p: Seq<char>, c: char, w: Seq<char>)
    requires
        forall|i: int| 0 <= i < w.len() ==> is_space(#[trigger] w[i]),
        !is_space(c),
    ensures
        is_choice_prompt(p + seq![c] + w) <==> c == ':',
        !is_choice_prompt(w),
{
    let empty = Seq::<char>::empty();
    let t = p + seq![c];
    law_trimming_takes_the_space_around(empty, seq![c], empty);
    lemma_end_is_kept(t, w);
    law_trimming_takes_the_space_around(empty, empty, w);
    assert(empty + w =~= w);
}

proof fn lemma_end_is_kept(t: Seq<char>, w: Seq<char>)
    requires
        t.len() > 0,
        !is_space(t[t.len() - 1]),
        forall|i: int| 0 <= i < w.len() ==> is_space(#[trigger] w[i]),
    ensures
        trimmed_end(t + w) == t,
    decreases w.len(),
{
    if w.len() == 0 {
        assert(t + w =~= t);
    } else {
        assert(is_space(w[w.len() - 1]));
        let rest = w.drop_last();
        assert forall|i: int| 0 <= i < rest.len() implies is_space(#[trigger] rest[i]) by {
            assert(is_space(w[i]));
        }
        assert((t + w).drop_last() =~= t + rest);
        lemma_end_is_kept(t, rest);
    }
}

/// A request for a one-time code is told by its words, wherever they stand.
pub proof fn law_a_code_prompt_is_told_by_its_words(a: Seq<char>, b: Seq<char>, s: Seq<char>)
    ensures
        is_code_prompt(a + "Enter the code:"@ + b),
        is_code_prompt(s) <==> exists|x: Seq<char>, y: Seq<char>|
            s == #[trigger] (x + "Enter the code:"@ + y),
{
    let words = "Enter the code:"@;
    law_a_run_stands_between(a, words, b);
    if is_code_prompt(s) {
        let i = choose|i: int|
            0 <= i <= s.len() - words.len() && #[trigger] s.subrange(i, i + words.len()) == words;
        assert(s =~= s.take(i) + words + s.skip(i + words.len()));
    }
    if exists|x: Seq<char>, y: Seq<char>| s == #[trigger] (x + words + y) {
        let (x, y) = choose|x: Seq<char>, y: Seq<char>| s == #[trigger] (x + words + y);
        law_a_run_stands_between(x, words, y);
    }
}

/// A line announces a prompt exactly where it ends with the prompt's header.
pub proof fn law_a_header_stands_at_the_end(rule: PromptRule, line: Seq<char>)
    ensures
        rule.announces(line) <==> exists|x: Seq<char>| line == #[trigger] (x + rule.header@),
{
    law_a_tail_is_what_stands_at_the_end(line, seq![], rule.header@);
}

} // verus!
