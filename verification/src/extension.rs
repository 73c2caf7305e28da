//! Extracting the extension from a client-supplied filename: the characters
//! after the last dot, or the sentinel "unknown" when there is no dot.

use vstd::prelude::*;
use vstd::string::StrSliceExecFns;

verus! {

/// The sentinel extension used when the filename carries none.
pub open spec fn unknown_chars() -> Seq<char> {
    seq!['u', 'n', 'k', 'n', 'o', 'w', 'n']
}

/// The characters after the last dot of `name`, or `None` when `name` has no
/// dot.
pub open spec fn after_last_dot(name: Seq<char>) -> Option<Seq<char>>
    decreases name.len(),
{
    if name.len() == 0 {
        None
    } else if name.last() == '.' {
        Some(Seq::empty())
    } else {
        match after_last_dot(name.drop_last()) {
            Some(s) => Some(s.push(name.last())),
            None => None,
        }
    }
}

/// The extension of a filename: what follows its last dot, or "unknown".
pub open spec fn extension_of(name: Seq<char>) -> Seq<char> {
    match after_last_dot(name) {
        Some(s) => s,
        None => unknown_chars(),
    }
}

/// The sentinel contains no dot.
pub proof fn lemma_unknown_no_dot()
    ensures
        forall|i: int| 0 <= i < unknown_chars().len() ==> #[trigger] unknown_chars()[i] != '.',
{
    assert forall|i: int| 0 <= i < unknown_chars().len() implies #[trigger] unknown_chars()[i]
        != '.' by {
        assert(unknown_chars() =~= seq!['u', 'n', 'k', 'n', 'o', 'w', 'n']);
        assert(unknown_chars().len() == 7);
        if i == 0 {
            assert(unknown_chars()[0] == 'u');
        } else if i == 1 {
            assert(unknown_chars()[1] == 'n');
        } else if i == 2 {
            assert(unknown_chars()[2] == 'k');
        } else if i == 3 {
            assert(unknown_chars()[3] == 'n');
        } else if i == 4 {
            assert(unknown_chars()[4] == 'o');
        } else if i == 5 {
            assert(unknown_chars()[5] == 'w');
        } else {
            assert(unknown_chars()[6] == 'n');
        }
    }
}

/// What follows the last dot never itself contains a dot.
pub proof fn lemma_after_last_dot_no_dot(name: Seq<char>)
    ensures
        (match after_last_dot(name) {
            Some(s) => forall|i: int| 0 <= i < s.len() ==> #[trigger] s[i] != '.',
            None => true,
        }),
    decreases name.len(),
{
    if name.len() > 0 && name.last() != '.' {
        lemma_after_last_dot_no_dot(name.drop_last());
    }
}

/// An extracted extension never contains a dot.
pub proof fn lemma_extension_no_dot(name: Seq<char>)
    ensures
        forall|i: int|
            0 <= i < extension_of(name).len() ==> #[trigger] extension_of(name)[i] != '.',
{
    lemma_after_last_dot_no_dot(name);
    lemma_unknown_no_dot();
}

/// When the last dot of `name` stands at `p`, what follows it is the
/// extension.
pub proof fn lemma_after_last_dot_position(name: Seq<char>, p: int)
    requires
        0 <= p < name.len(),
        name[p] == '.',
        forall|k: int| p < k < name.len() ==> name[k] != '.',
    ensures
        after_last_dot(name) == Some(name.subrange(p + 1, name.len() as int)),
    decreases name.len(),
{
    if p == name.len() - 1 {
        assert(name.subrange(p + 1, name.len() as int) =~= Seq::<char>::empty());
    } else {
        lemma_after_last_dot_position(name.drop_last(), p);
        assert(name.drop_last().subrange(p + 1, name.len() - 1).push(name.last())
            =~= name.subrange(p + 1, name.len() as int));
    }
}

/// A name without a dot has no extension of its own.
pub proof fn lemma_after_last_dot_none(name: Seq<char>)
    requires
        forall|k: int| 0 <= k < name.len() ==> name[k] != '.',
    ensures
        after_last_dot(name) is None,
    decreases name.len(),
{
    if name.len() > 0 {
        lemma_after_last_dot_none(name.drop_last());
    }
}

/// Extracts the extension of a filename: the characters after its last dot,
/// or "unknown" when it has no dot.
pub fn extract_extension(name: &str) -> (ext: String)
    ensures
        ext@ == extension_of(name@),
{
    let n = name.unicode_len();
    let mut j: usize = n;
    while j > 0
        invariant
            j <= n,
            n == name@.len(),
            forall|k: int| j <= k < n ==> name@[k] != '.',
        decreases j,
    {
        if name.get_char(j - 1) == '.' {
            let ext = name.substring_char(j, n).to_owned();
            proof {
                lemma_after_last_dot_position(name@, j - 1);
            }
            return ext;
        }
        j -= 1;
    }
    proof {
        lemma_after_last_dot_none(name@);
        reveal_strlit("unknown");
        assert("unknown"@ =~= unknown_chars());
    }
    "unknown".to_owned()
}

} // verus!
