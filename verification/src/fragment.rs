//! Fragment identifiers and the markup that carries them.
//!
//! A suspended boundary is known by the document it belongs to and by the
//! order in which the render pass discovered it. The textual key built from
//! the two is what the initial document and every streamed fragment carry.

use crate::text::{decimal, is_digit, lemma_decimal_digits, lemma_decimal_injective, push_decimal};
use vstd::prelude::*;

verus! {

/// Identifies one suspended boundary of one document.
#[derive(Clone, Copy, Debug, PartialEq, Eq, Structural)]
pub struct FragmentId {
    /// The document instance the boundary was rendered for.
    pub document: u64,
    /// The position of the boundary among the suspended boundaries of that
    /// document, in order of discovery, starting at zero.
    pub order: u64,
}

/// The textual key of the boundary discovered as number `order` of document
/// `document`: the two numerals joined by a hyphen.
pub open spec fn fragment_key(document: nat, order: nat) -> Seq<char> {
    decimal(document) + seq!['-'] + decimal(order)
}

/// The markup of a fallback container: `content` inside an element that
/// carries `key` as its fragment identifier.
pub open spec fn container_markup(key: Seq<char>, content: Seq<char>) -> Seq<char> {
    "<div data-fragment-id=\""@ + key + "\">"@ + content + "</div>"@
}

/// The wire form of a resolved fragment: `markup` inside a template element
/// that carries `key` as its fragment identifier.
pub open spec fn fragment_chunk(key: Seq<char>, markup: Seq<char>) -> Seq<char> {
    "<template data-fragment-id=\""@ + key + "\">"@ + markup + "</template>"@
}

/// Keys are unique: two boundaries share a key only if they are the same
/// boundary of the same document.
pub proof fn lemma_fragment_key_injective(d1: nat, o1: nat, d2: nat, o2: nat)
    requires
        fragment_key(d1, o1) == fragment_key(d2, o2),
    ensures
        d1 == d2,
        o1 == o2,
{
    let k1 = fragment_key(d1, o1);
    let k2 = fragment_key(d2, o2);
    let n1 = decimal(d1).len() as int;
    let n2 = decimal(d2).len() as int;
    lemma_decimal_digits(d1);
    lemma_decimal_digits(d2);
    lemma_decimal_digits(o1);
    lemma_decimal_digits(o2);
    assert(k1[n1] == '-');
    assert(k2[n2] == '-');
    if n1 < n2 {
        assert(k2[n1] == decimal(d2)[n1]);
        assert(is_digit(decimal(d2)[n1]));
    } else if n2 < n1 {
        assert(k1[n2] == decimal(d1)[n2]);
        assert(is_digit(decimal(d1)[n2]));
    } else {
        assert(k1.subrange(0, n1) =~= decimal(d1));
        assert(k2.subrange(0, n2) =~= decimal(d2));
        assert(k1.subrange(n1 + 1, k1.len() as int) =~= decimal(o1));
        assert(k2.subrange(n2 + 1, k2.len() as int) =~= decimal(o2));
        lemma_decimal_injective(d1, d2);
        lemma_decimal_injective(o1, o2);
    }
}

impl FragmentId {
    /// The textual key of this boundary.
    pub open spec fn key_text(self) -> Seq<char> {
        fragment_key(self.document as nat, self.order as nat)
    }

    /// Renders the textual key of this boundary.
    pub fn key(&self) -> (key: String)
        ensures
            key@ == self.key_text(),
    {
        let mut key = String::new();
        push_decimal(&mut key, self.document);
        proof {
            reveal_strlit("-");
        }
        key.append("-");
        push_decimal(&mut key, self.order);
        assert(key@ =~= self.key_text());
        key
    }
}

/// Two identifiers render the same key only if they are equal.
pub proof fn lemma_key_identifies(a: FragmentId, b: FragmentId)
    requires
        a.key_text() == b.key_text(),
    ensures
        a == b,
{
    lemma_fragment_key_injective(a.document as nat, a.order as nat, b.document as nat, b.order as nat);
}

/// Wraps `fallback` in the container that marks a pending boundary in the
/// initial document.
pub fn wrap_fallback(key: &str, fallback: &str) -> (markup: String)
    ensures
        markup@ == container_markup(key@, fallback@),
{
    let mut markup = "<div data-fragment-id=\"".to_owned();
    markup.append(key);
    markup.append("\">");
    markup.append(fallback);
    markup.append("</div>");
    markup
}

/// Renders a resolved fragment in its wire form.
pub fn wrap_fragment(key: &str, content: &str) -> (chunk: String)
    ensures
        chunk@ == fragment_chunk(key@, content@),
{
    let mut chunk = "<template data-fragment-id=\"".to_owned();
    chunk.append(key);
    chunk.append("\">");
    chunk.append(content);
    chunk.append("</template>");
    chunk
}

} // verus!
