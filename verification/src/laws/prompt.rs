//! Laws on prompts.

use vstd::prelude::*;

use crate::laws::text::lemma_joined_append;
use crate::message::{MessageView, Role};
use crate::prompt::{prompt_of, prompt_parts};

verus! {

/// Some message has text.
pub open spec fn something_said(messages: Seq<MessageView>) -> bool {
    exists|i: int| 0 <= i < messages.len() && (#[trigger] messages[i]).text.len() > 0
}

proof fn lemma_parts_append(a: Seq<MessageView>, b: Seq<MessageView>)
    ensures
        prompt_parts(a + b) == prompt_parts(a) + prompt_parts(b),
    decreases b.len(),
{
    if b.len() == 0 {
        assert(a + b =~= a);
        assert(prompt_parts(a) + prompt_parts(b) =~= prompt_parts(a));
    } else {
        lemma_parts_append(a, b.drop_last());
        assert((a + b).drop_last() =~= a + b.drop_last());
        assert(prompt_parts(a + b) =~= prompt_parts(a) + prompt_parts(b));
    }
}

proof fn lemma_parts_if_said(messages: Seq<MessageView>)
    ensures
        something_said(messages) <==> prompt_parts(messages).len() > 0,
    decreases messages.len(),
{
    if messages.len() > 0 {
        let init = messages.drop_last();
        lemma_parts_if_said(init);
        if something_said(init) {
            let i = choose|i: int| 0 <= i < init.len() && (#[trigger] init[i]).text.len() > 0;
            assert(messages[i] == init[i]);
        }
        if messages.last().text.len() > 0 {
            assert(messages[messages.len() - 1].text.len() > 0);
        }
        if something_said(messages) && messages.last().text.len() == 0 {
            let i = choose|i: int|
                0 <= i < messages.len() && (#[trigger] messages[i]).text.len() > 0;
            assert(init[i] == messages[i]);
        }
    }
}

/// The messages stand in the prompt in the order of the conversation: where two stretches
/// of it both say something, the prompt is that of the first, an empty line, and that of
/// the second. A stretch that says nothing leaves no trace.
pub proof fn law_prompt_keeps_the_order(a: Seq<MessageView>, b: Seq<MessageView>)
    ensures
        something_said(a) && something_said(b) ==> prompt_of(a + b) == prompt_of(a) + "\n\n"@
            + prompt_of(b),
        !something_said(a) ==> prompt_of(a + b) == prompt_of(b),
        !something_said(b) ==> prompt_of(a + b) == prompt_of(a),
{
    lemma_parts_append(a, b);
    lemma_parts_if_said(a);
    lemma_parts_if_said(b);
    if something_said(a) && something_said(b) {
        lemma_joined_append(prompt_parts(a), prompt_parts(b), "\n\n"@);
    } else if !something_said(a) {
        assert(prompt_parts(a + b) =~= prompt_parts(b));
    } else {
        assert(prompt_parts(a + b) =~= prompt_parts(a));
    }
}

/// A message alone is its speaker's label in brackets, a line feed, and its text; without
/// text it is nothing.
pub proof fn law_prompt_of_one_message(message: MessageView)
    ensures
        message.text.len() == 0 ==> prompt_of(seq![message]) == Seq::<char>::empty(),
        message.text.len() > 0 ==> prompt_of(seq![message]) == (match message.role {
            Role::User => "["@ + "User"@ + "]\n"@ + message.text,
            Role::Assistant => "["@ + "Assistant"@ + "]\n"@ + message.text,
            Role::System => "["@ + "System"@ + "]\n"@ + message.text,
        }),
        prompt_of(Seq::empty()) == Seq::<char>::empty(),
{
    reveal_with_fuel(prompt_parts, 2);
    assert(seq![message].drop_last() =~= Seq::<MessageView>::empty());
    assert(prompt_parts(Seq::empty()) =~= Seq::<Seq<char>>::empty());
    if message.text.len() > 0 {
        assert(prompt_parts(seq![message]).len() == 1);
    }
}

} // verus!
