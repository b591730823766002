//! The system message that carries distilled memories into a home-base request.

use vstd::prelude::*;

use crate::llm::ChatMsg;
use crate::store::MemRow;
use crate::text::{append_chars, chars_of, join, join_chars, string_of, trim, trim_chars, views};

verus! {

/// The text that opens the memory system message.
pub const MEMORY_PREAMBLE: &'static str = "Relevant context about the user, retrieved from saved memories. Use it only if helpful and ignore anything irrelevant to the question.\n";

/// The bullet lines for memory texts: each non-blank text, trimmed, after
/// "- ", in the given order; blank texts are skipped.
pub open spec fn memory_lines(texts: Seq<Seq<char>>) -> Seq<Seq<char>>
    decreases texts.len(),
{
    if texts.len() == 0 {
        Seq::<Seq<char>>::empty()
    } else {
        let before = memory_lines(texts.drop_last());
        let t = trim(texts.last());
        if t.len() > 0 {
            before.push("- "@ + t)
        } else {
            before
        }
    }
}

/// The texts of memory rows, in order.
pub open spec fn memory_texts(memories: Seq<MemRow>) -> Seq<Seq<char>> {
    memories.map_values(|m: MemRow| m.text@)
}

/// The content of the memory system message for the given lines.
pub open spec fn memory_content(lines: Seq<Seq<char>>) -> Seq<char> {
    MEMORY_PREAMBLE@ + join(lines, "\n"@)
}

/// Build a system message from distilled memories, or `None` if there is
/// nothing to inject. Memories arrive best-first (similarity order); the
/// order is kept.
pub fn build_memory_message(memories: &[MemRow]) -> (r: Option<ChatMsg>)
    ensures
        r is None <==> memory_lines(memory_texts(memories@)).len() == 0,
        r matches Some(m) ==> m.role@ == "system"@ && m.content@ == memory_content(
            memory_lines(memory_texts(memories@)),
        ),
{
    let mut lines: Vec<Vec<char>> = Vec::new();
    let mut k: usize = 0;
    assert(memory_texts(memories@).take(0) =~= Seq::<Seq<char>>::empty());
    while k < memories.len()
        invariant
            k <= memories.len(),
            views(lines@) == memory_lines(memory_texts(memories@).take(k as int)),
        decreases memories.len() - k,
    {
        let ghost texts = memory_texts(memories@);
        assert(texts.take(k + 1).drop_last() =~= texts.take(k as int));
        assert(texts.take(k + 1).last() == memories@[k as int].text@);
        let t = trim_chars(chars_of(memories[k].text.as_str()).as_slice());
        if t.len() > 0 {
            let mut line = chars_of("- ");
            append_chars(&mut line, t.as_slice());
            lines.push(line);
            assert(views(lines@) =~= memory_lines(texts.take(k + 1)));
        }
        k = k + 1;
    }
    assert(memory_texts(memories@).take(memories.len() as int) =~= memory_texts(memories@));
    if lines.len() == 0 {
        return None;
    }
    let mut content = chars_of(MEMORY_PREAMBLE);
    let body = join_chars(&lines, chars_of("\n").as_slice());
    append_chars(&mut content, body.as_slice());
    Some(ChatMsg { role: string_of(chars_of("system").as_slice()), content: string_of(content.as_slice()) })
}

/// The memory message has one bullet line per non-blank memory, in order:
/// the lines are exactly the trimmed memory texts that are not empty, each
/// after "- ", so no memory is dropped, repeated or moved.
pub proof fn law_memory_lines_keep_every_memory(texts: Seq<Seq<char>>)
    ensures
        memory_lines(texts) == texts.map_values(|t: Seq<char>| trim(t)).filter(
            |t: Seq<char>| t.len() > 0,
        ).map_values(|t: Seq<char>| "- "@ + t),
    decreases texts.len(),
{
    reveal(Seq::filter);
    let trimmed = texts.map_values(|t: Seq<char>| trim(t));
    let keep = |t: Seq<char>| t.len() > 0;
    if texts.len() == 0 {
        assert(trimmed =~= Seq::<Seq<char>>::empty());
        assert(trimmed.filter(keep) =~= Seq::<Seq<char>>::empty());
        assert(trimmed.filter(keep).map_values(|t: Seq<char>| "- "@ + t) =~= Seq::<
            Seq<char>,
        >::empty());
    } else {
        let dl = texts.drop_last();
        law_memory_lines_keep_every_memory(dl);
        assert(trimmed.drop_last() =~= dl.map_values(|t: Seq<char>| trim(t)));
        assert(trimmed.last() == trim(texts.last()));
        let rest = dl.map_values(|t: Seq<char>| trim(t)).filter(keep);
        if trim(texts.last()).len() > 0 {
            assert(trimmed.filter(keep) == rest.push(trim(texts.last())));
            assert(rest.push(trim(texts.last())).map_values(|t: Seq<char>| "- "@ + t)
                =~= rest.map_values(|t: Seq<char>| "- "@ + t).push("- "@ + trim(texts.last())));
        } else {
            assert(trimmed.filter(keep) == rest);
        }
    }
}

} // verus!
