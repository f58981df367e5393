//! Shared value types: the error taxonomy, the syntax-highlight language
//! tag, and the upload form.

use vstd::prelude::*;

verus! {

/// Every way a paste operation can fail.
///
/// `ValidationError` (a malformed identifier) is mapped to `NotFound` at the
/// request boundary so that a probing client cannot tell a badly shaped
/// identifier from a missing one.
#[derive(Clone, Copy, Debug, PartialEq, Eq, Structural)]
pub enum PasteError {
    /// An externally supplied identifier does not match the generation format.
    ValidationError,
    /// No entry exists for the identifier.
    NotFound,
    /// The uploaded content exceeds the configured size ceiling.
    PayloadTooLarge,
    /// The underlying storage failed.
    IoError,
}

/// Character-for-character string equality, decided against the views.
pub fn str_eq(a: &str, b: &str) -> (r: bool)
    ensures
        r == (a@ == b@),
{
    let a_len = a.unicode_len();
    let b_len = b.unicode_len();
    if a_len != b_len {
        return false;
    }
    let mut i: usize = 0;
    while i < a_len
        invariant
            a_len == a@.len(),
            a_len == b@.len(),
            i <= a_len,
            forall|j: int| 0 <= j < i ==> a@[j] == b@[j],
        decreases a_len - i,
    {
        if a.get_char(i) != b.get_char(i) {
            return false;
        }
        i += 1;
    }
    proof {
        assert(a@ =~= b@);
    }
    true
}

/// The syntax-highlight class a language tag maps to: a supported language
/// keeps its own class, anything else falls back to plain text.
pub open spec fn lang_class(tag: Seq<char>) -> Seq<char> {
    if tag == "c"@ {
        "language-c"@
    } else if tag == "cpp"@ {
        "language-cpp"@
    } else if tag == "csharp"@ {
        "language-csharp"@
    } else if tag == "ruby"@ {
        "language-ruby"@
    } else if tag == "js"@ {
        "language-js"@
    } else if tag == "xml"@ {
        "language-xml"@
    } else if tag == "css"@ {
        "language-css"@
    } else if tag == "rust"@ {
        "language-rust"@
    } else {
        "language-text"@
    }
}

/// A general-purpose or domain-specific language tag, resolved to the class
/// name the presentation layer hands to the highlighter.
#[derive(Debug)]
pub struct Lang {
    class: String,
}

impl View for Lang {
    type V = Seq<char>;

    closed spec fn view(&self) -> Seq<char> {
        self.class@
    }
}

impl Lang {
    /// Resolve a request's language tag. Never fails: an unsupported tag
    /// gets the plain-text class rather than an error.
    pub fn from_param(param: &str) -> (r: Lang)
        ensures
            r@ == lang_class(param@),
    {
        let class: &str = if str_eq(param, "c") {
            "language-c"
        } else if str_eq(param, "cpp") {
            "language-cpp"
        } else if str_eq(param, "csharp") {
            "language-csharp"
        } else if str_eq(param, "ruby") {
            "language-ruby"
        } else if str_eq(param, "js") {
            "language-js"
        } else if str_eq(param, "xml") {
            "language-xml"
        } else if str_eq(param, "css") {
            "language-css"
        } else if str_eq(param, "rust") {
            "language-rust"
        } else {
            "language-text"
        };
        Lang { class: class.to_owned() }
    }

    /// The resolved class name.
    pub fn to_string(&self) -> (r: String)
        ensures
            r@ == self@,
    {
        self.class.clone()
    }
}

/// The form a client submits to create a paste from the web view: the raw
/// content and the language tag to highlight it with.
pub struct SendPastebin {
    pub raw_content: String,
    pub lang: String,
}

} // verus!
