//! The message model and the part locator.
//!
//! A parsed message is flattened to the depth the pipeline inspects: the
//! top-level part and its immediate child parts. The locator selects the
//! top-level part when its declared media type is usable, and otherwise the
//! first child part with a usable type; it never searches deeper than one
//! level.

use vstd::prelude::*;

verus! {

/// A node of a parsed message: its declared media type, its raw body bytes,
/// and the declared content-disposition filename, when one is present.
pub struct Part {
    pub mimetype: String,
    pub body: Vec<u8>,
    pub filename: Option<String>,
}

/// A parsed message, reduced to what the locator inspects: the top-level part
/// and its immediate child parts, in order.
pub struct Message {
    pub top: Part,
    pub children: Vec<Part>,
}

/// A media type is usable when it is one of the attachment types that report
/// senders use for compressed reports.
pub open spec fn is_usable_mime(m: Seq<char>) -> bool {
    m == "application/zip"@ || m == "application/gzip"@ || m == "application/octet-stream"@
}

/// Decides whether a declared media type is one of the usable attachment types.
pub fn usable_mime(m: &String) -> (r: bool)
    ensures
        r == is_usable_mime(m@),
{
    let zip: String = String::from_str("application/zip");
    let gzip: String = String::from_str("application/gzip");
    let octet: String = String::from_str("application/octet-stream");
    *m == zip || *m == gzip || *m == octet
}

/// The first part of the sequence with a usable media type, if any.
pub open spec fn first_usable(parts: Seq<Part>) -> Option<Part>
    decreases parts.len(),
{
    if parts.len() == 0 {
        None
    } else if is_usable_mime(parts[0].mimetype@) {
        Some(parts[0])
    } else {
        first_usable(parts.drop_first())
    }
}

/// The part the locator selects: the top-level part when its media type is
/// usable, otherwise the first child part with a usable media type.
pub open spec fn spec_locate(m: Message) -> Option<Part> {
    if is_usable_mime(m.top.mimetype@) {
        Some(m.top)
    } else {
        first_usable(m.children@)
    }
}

/// Finds the part that carries the report, or reports that none qualifies.
pub fn locate(m: &Message) -> (r: Option<&Part>)
    ensures
        match r {
            Some(p) => spec_locate(*m) == Some(*p),
            None => spec_locate(*m) is None,
        },
{
    if usable_mime(&m.top.mimetype) {
        return Some(&m.top);
    }
    let n = m.children.len();
    let mut i: usize = 0;
    proof {
        assert(m.children@.skip(0) =~= m.children@);
    }
    while i < n
        invariant
            i <= n,
            n == m.children@.len(),
            !is_usable_mime(m.top.mimetype@),
            first_usable(m.children@.skip(i as int)) == first_usable(m.children@),
        decreases n - i,
    {
        if usable_mime(&m.children[i].mimetype) {
            proof {
                let s = m.children@.skip(i as int);
                assert(s[0] == m.children@[i as int]);
                assert(first_usable(s) == Some(s[0]));
            }
            return Some(&m.children[i]);
        }
        proof {
            assert(m.children@.skip(i as int).drop_first() =~= m.children@.skip(i + 1));
        }
        i = i + 1;
    }
    proof {
        assert(m.children@.skip(n as int) =~= Seq::<Part>::empty());
    }
    None
}

/// Whichever part the locator selects declares a usable media type.
pub proof fn lemma_located_is_usable(m: Message)
    ensures
        spec_locate(m) matches Some(p) ==> is_usable_mime(p.mimetype@),
{
    lemma_first_usable_is_usable(m.children@);
}

proof fn lemma_first_usable_is_usable(parts: Seq<Part>)
    ensures
        first_usable(parts) matches Some(p) ==> is_usable_mime(p.mimetype@),
    decreases parts.len(),
{
    if parts.len() > 0 && !is_usable_mime(parts[0].mimetype@) {
        lemma_first_usable_is_usable(parts.drop_first());
    }
}

/// When no part of the message declares a usable media type, the locator
/// finds nothing.
pub proof fn lemma_locate_none_without_usable(m: Message)
    requires
        !is_usable_mime(m.top.mimetype@),
        forall|i: int|
            0 <= i < m.children@.len() ==> !is_usable_mime(#[trigger] m.children@[i].mimetype@),
    ensures
        spec_locate(m) is None,
{
    lemma_first_usable_none(m.children@);
}

proof fn lemma_first_usable_none(parts: Seq<Part>)
    requires
        forall|i: int| 0 <= i < parts.len() ==> !is_usable_mime(#[trigger] parts[i].mimetype@),
    ensures
        first_usable(parts) is None,
    decreases parts.len(),
{
    if parts.len() > 0 {
        assert(forall|i: int|
            0 <= i < parts.drop_first().len() ==> #[trigger] parts.drop_first()[i] == parts[i
                + 1]);
        lemma_first_usable_none(parts.drop_first());
    }
}

} // verus!
