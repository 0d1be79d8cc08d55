//! The chat request and the prompt handed to the local inference
//! endpoint: the whole conversation flattened to `role: content` lines,
//! closed by the user's new message. Sending the prompt over HTTP is
//! the surrounding program's business.
use vstd::prelude::*;

use vstd::string::StringExecFns;

verus! {

/// One turn of a conversation as the web client sends it.
pub struct Message {
    pub role: String,
    pub content: String,
}

/// A chat request: the new message, the conversation so far, and the
/// session to continue, if any.
pub struct ChatRequest {
    pub message: String,
    pub conversation: Vec<Message>,
    pub session_id: Option<String>,
}

/// One line of the flattened prompt: `role: content`, newline-ended.
pub open spec fn prompt_line(role: Seq<char>, content: Seq<char>) -> Seq<char> {
    role + ": "@ + content + "\n"@
}

/// The conversation's turns, each flattened to its line, in order.
pub open spec fn spec_prompt_lines(conv: Seq<Message>) -> Seq<char>
    decreases conv.len(),
{
    if conv.len() == 0 {
        Seq::<char>::empty()
    } else {
        spec_prompt_lines(conv.drop_last()) + prompt_line(
            conv.last().role@,
            conv.last().content@,
        )
    }
}

/// The full prompt: every conversation line, then the user's new
/// message as a final `user:` line.
pub open spec fn spec_prompt(conv: Seq<Message>, message: Seq<char>) -> Seq<char> {
    spec_prompt_lines(conv) + "user: "@ + message + "\n"@
}

/// Flatten a request into the single prompt text sent for completion.
pub fn build_prompt(req: &ChatRequest) -> (r: String)
    ensures
        r@ == spec_prompt(req.conversation@, req.message@),
{
    let mut prompt = String::new();
    let mut i: usize = 0;
    while i < req.conversation.len()
        invariant
            i <= req.conversation@.len(),
            prompt@ == spec_prompt_lines(req.conversation@.take(i as int)),
        decreases req.conversation@.len() - i,
    {
        let ghost before = prompt@;
        prompt.append(req.conversation[i].role.as_str());
        prompt.append(": ");
        prompt.append(req.conversation[i].content.as_str());
        prompt.append("\n");
        proof {
            let taken = req.conversation@.take(i + 1 as int);
            assert(taken.drop_last() =~= req.conversation@.take(i as int));
            assert(taken.last() == req.conversation@[i as int]);
            assert(prompt@ =~= spec_prompt_lines(taken.drop_last()) + prompt_line(
                taken.last().role@,
                taken.last().content@,
            ));
        }
        i += 1;
    }
    proof {
        assert(req.conversation@.take(req.conversation@.len() as int) =~= req.conversation@);
    }
    prompt.append("user: ");
    prompt.append(req.message.as_str());
    prompt.append("\n");
    proof {
        assert(prompt@ =~= spec_prompt(req.conversation@, req.message@));
    }
    prompt
}

} // verus!
