//! The buffer that holds a password: its memory is wiped when it goes out of scope.

use vstd::prelude::*;
use vstd::string::*;
use zeroize::Zeroizing;

verus! {

/// A text whose memory is overwritten when it is dropped.
///
/// The wiping itself is `zeroize::Zeroizing`'s and is not part of any contract here; the contracts
/// speak of the characters held.
#[verifier::external_body]
pub struct Secret {
    inner: Zeroizing<String>,
}

/// The characters that a secret holds.
pub uninterp spec fn secret_text(secret: Secret) -> Seq<char>;

impl View for Secret {
    type V = Seq<char>;

    open spec fn view(&self) -> Seq<char> {
        secret_text(*self)
    }
}

/// The longest prefix of a text that does not end in a line feed or a carriage return.
pub open spec fn without_line_end(text: Seq<char>) -> Seq<char>
    decreases text.len(),
{
    if text.len() > 0 && (text.last() == '\n' || text.last() == '\r') {
        without_line_end(text.drop_last())
    } else {
        text
    }
}

/// `String::pop` removes the last character and returns it, or returns `None` on an empty string.
pub assume_specification[ String::pop ](text: &mut String) -> (last: Option<char>)
    ensures
        old(text)@.len() == 0 ==> last is None && final(text)@ == old(text)@,
        old(text)@.len() > 0 ==> last == Some(old(text)@.last()) && final(text)@
            == old(text)@.drop_last(),
;

/// `String::clear` removes all characters.
pub assume_specification[ String::clear ](text: &mut String)
    ensures
        final(text)@ == Seq::<char>::empty(),
;

/// `String::push_str` appends a text.
pub assume_specification[ String::push_str ](text: &mut String, more: &str)
    ensures
        final(text)@ == old(text)@ + more@,
;

impl Secret {
    /// `Zeroizing::new` moves the text into the wrapper unchanged.
    #[verifier::external_body]
    pub(crate) fn wrap(text: String) -> (secret: Secret)
        ensures
            secret_text(secret) == text@,
    {
        Secret { inner: Zeroizing::new(text) }
    }

    /// `Zeroizing`'s `Deref` lends the wrapped text unchanged.
    #[verifier::external_body]
    pub(crate) fn lend(&self) -> (text: &String)
        ensures
            text@ == secret_text(*self),
    {
        &self.inner
    }

    /// `Zeroizing`'s `DerefMut` lends the wrapped text for modification: what the borrower leaves
    /// in it is what the secret then holds.
    #[verifier::external_body]
    pub(crate) fn lend_mut(&mut self) -> (text: &mut String)
        ensures
            text@ == secret_text(*old(self)),
            secret_text(*final(self)) == final(text)@,
    {
        &mut self.inner
    }

    /// An empty secret.
    pub fn new() -> (secret: Secret)
        ensures
            secret@ == Seq::<char>::empty(),
    {
        Secret::wrap(String::new())
    }

    /// Takes over a text.
    pub fn from_text(text: String) -> (secret: Secret)
        ensures
            secret@ == text@,
    {
        Secret::wrap(text)
    }

    /// The text held, for the one consumer that needs it: the PAM conversation.
    pub fn as_str(&self) -> (text: &str)
        ensures
            text@ == self@,
    {
        self.lend().as_str()
    }

    /// Appends a text.
    pub fn push_str(&mut self, more: &str)
        ensures
            final(self)@ == old(self)@ + more@,
    {
        self.lend_mut().push_str(more);
    }

    /// Removes the last character, if there is one.
    pub fn pop(&mut self)
        ensures
            final(self)@ == (if old(self)@.len() == 0 {
                old(self)@
            } else {
                old(self)@.drop_last()
            }),
    {
        let _ = self.lend_mut().pop();
    }

    /// Removes every character.
    pub fn clear(&mut self)
        ensures
            final(self)@ == Seq::<char>::empty(),
    {
        self.lend_mut().clear();
    }

    /// Moves the text out into a secret of its own and leaves an empty one behind.
    pub fn take(&mut self) -> (taken: Secret)
        ensures
            taken@ == old(self)@,
            final(self)@ == Seq::<char>::empty(),
    {
        let mut taken = Secret::new();
        core::mem::swap(self, &mut taken);
        taken
    }

    /// How many characters are held.
    pub fn char_count(&self) -> (count: usize)
        ensures
            count == self@.len(),
    {
        self.lend().as_str().unicode_len()
    }

    /// Whether nothing is held.
    pub fn is_empty(&self) -> (empty: bool)
        ensures
            empty == (self@.len() == 0),
    {
        self.lend().as_str().is_empty()
    }

    /// Whether a character is among those held.
    pub fn contains(&self, wanted: char) -> (found: bool)
        ensures
            found == self@.contains(wanted),
    {
        let text = self.as_str();
        let count: usize = text.unicode_len();
        let mut i: usize = 0;
        while i < count
            invariant
                i <= count,
                count == text@.len(),
                text@ == self@,
                forall|j: int| 0 <= j < i ==> #[trigger] self@[j] != wanted,
            decreases count - i,
        {
            if text.get_char(i) == wanted {
                assert(self@[i as int] == wanted);
                return true;
            }
            i += 1;
        }
        false
    }

    /// Removes the line ends that a terminal or a pipe leaves behind the text.
    pub fn trim_line_end(&mut self)
        ensures
            final(self)@ == without_line_end(old(self)@),
    {
        loop
            invariant
                without_line_end(self@) == without_line_end(old(self)@),
            ensures
                self@ == without_line_end(old(self)@),
            decreases self@.len(),
        {
            let count: usize = self.char_count();
            if count == 0 {
                break;
            }
            let last: char = self.as_str().get_char(count - 1);
            if last != '\n' && last != '\r' {
                break;
            }
            self.pop();
        }
    }
}

} // verus!
