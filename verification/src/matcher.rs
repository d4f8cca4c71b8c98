//! Which messages count as a request to play.
use vstd::prelude::*;
use vstd::string::*;

verus! {

/// The text that a request to play starts with.
pub open spec fn play_prefix() -> Seq<char> {
    seq!['!', 'p', 'l', 'a', 'y']
}

/// The message starts with the play prefix.
pub open spec fn matches_play(message: Seq<char>) -> bool {
    play_prefix().is_prefix_of(message)
}

/// Whether `text` starts with `prefix`, character by character.
pub fn starts_with(text: &str, prefix: &str) -> (found: bool)
    ensures
        found == prefix@.is_prefix_of(text@),
{
    let wanted = prefix.unicode_len();
    if text.unicode_len() < wanted {
        return false;
    }
    let mut i: usize = 0;
    while i < wanted
        invariant
            i <= wanted,
            wanted == prefix@.len(),
            wanted <= text@.len(),
            forall|j: int| 0 <= j < i ==> text@[j] == prefix@[j],
        decreases wanted - i,
    {
        if text.get_char(i) != prefix.get_char(i) {
            assert(text@.subrange(0, wanted as int)[i as int] != prefix@[i as int]);
            return false;
        }
        i = i + 1;
    }
    assert(prefix@ =~= text@.subrange(0, wanted as int));
    true
}

/// Whether a chat message counts towards the threshold.
pub fn is_play_request(message: &str) -> (matched: bool)
    ensures
        matched == matches_play(message@),
{
    proof {
        reveal_strlit("!play");
        assert("!play"@ =~= play_prefix());
    }
    starts_with(message, "!play")
}

} // verus!
