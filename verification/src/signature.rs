//! Signature texts: how the types of a patched item are written down.
//!
//! A signature is written `fn(A, B) -> R`, with the types spelled as the
//! module that declares the item spells them. Two signatures agree when their
//! texts are the same, character for character; nothing else is compared.

use vstd::prelude::*;
use vstd::string::*;

verus! {

/// The first `count` of `types`, separated by a comma and a space.
pub open spec fn joined(types: Seq<String>, count: int) -> Seq<char>
    decreases count,
{
    if count <= 0 {
        Seq::empty()
    } else if count == 1 {
        types[0]@
    } else {
        joined(types, count - 1) + ", "@ + types[count - 1]@
    }
}

/// The signature text of an item that takes `inputs` and returns `output`.
pub open spec fn signature_of(inputs: Seq<String>, output: Seq<char>) -> Seq<char> {
    "fn("@ + joined(inputs, inputs.len() as int) + ") -> "@ + output
}

/// The signature text of an item that takes `inputs` and returns `output`.
pub fn signature_text(inputs: &Vec<String>, output: &str) -> (text: String)
    ensures
        text@ == signature_of(inputs@, output@),
{
    let mut text = "fn(".to_owned();
    let mut i: usize = 0;
    while i < inputs.len()
        invariant
            i <= inputs.len(),
            text@ == "fn("@ + joined(inputs@, i as int),
        decreases inputs.len() - i,
    {
        if i > 0 {
            text.append(", ");
        }
        text.append(inputs[i].as_str());
        i += 1;
        assert(text@ =~= "fn("@ + joined(inputs@, i as int));
    }
    text.append(") -> ");
    text.append(output);
    assert(text@ =~= signature_of(inputs@, output@));
    text
}

} // verus!
