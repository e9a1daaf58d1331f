//! Building text: what `String` offers beyond the operations that vstd
//! already describes, and joining blocks of text in order.

use vstd::prelude::*;
use vstd::string::StringExecFns;

verus! {

/// `String::push` appends the given character to the end of the string and
/// leaves the characters before it as they were.
pub assume_specification[ String::push ](text: &mut String, ch: char)
    ensures
        final(text)@ == old(text)@.push(ch),
;

/// The characters of every string of a list, in the list's order.
pub open spec fn texts_of(blocks: Seq<String>) -> Seq<Seq<char>> {
    blocks.map_values(|block: String| block@)
}

/// Appends every character of `chars`, in order, to `out`.
pub fn push_chars(out: &mut String, chars: &Vec<char>)
    ensures
        final(out)@ == old(out)@ + chars@,
{
    let mut i: usize = 0;
    while i < chars.len()
        invariant
            i <= chars.len(),
            out@ == old(out)@ + chars@.subrange(0, i as int),
        decreases chars.len() - i,
    {
        out.push(chars[i]);
        i += 1;
    }
    assert(chars@.subrange(0, chars.len() as int) == chars@);
}

/// Joins the blocks in order into one text.
pub fn concat_blocks(blocks: &Vec<String>) -> (joined: String)
    ensures
        joined@ == texts_of(blocks@).flatten(),
{
    let mut joined = String::new();
    let mut i: usize = 0;
    while i < blocks.len()
        invariant
            i <= blocks.len(),
            joined@ == texts_of(blocks@).subrange(0, i as int).flatten(),
        decreases blocks.len() - i,
    {
        proof {
            let done = texts_of(blocks@).subrange(0, i as int);
            assert(texts_of(blocks@).subrange(0, i + 1) == done.push(blocks@[i as int]@));
            done.lemma_flatten_push(blocks@[i as int]@);
        }
        joined.append(blocks[i].as_str());
        i += 1;
    }
    assert(texts_of(blocks@).subrange(0, blocks.len() as int) == texts_of(blocks@));
    joined
}

} // verus!
