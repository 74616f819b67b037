//! Content encodings and how a single field of the header names one.

use crate::chars::{
    all_whitespace, ascii_lowercase, eq_ignore_ascii_case, eq_ignoring_ascii_case, is_trimmed,
    lemma_trimmed_of_padded, lemma_trimmed_of_whitespace, lemma_trimmed_splits, trim, trimmed,
};
use std::str::FromStr;
use vstd::prelude::*;

verus! {

/// Standard content encoding scheme, as registered with IANA.
#[derive(Copy, Clone, Eq, PartialEq, Debug, Hash, Structural)]
pub enum StdContentEncoding {
    /// Brotli compressed data format.
    Brottli,
    /// Unix "compress" data format.
    Compress,
    /// Deflate compressed data format.
    Deflate,
    /// W3C Efficient XML Interchange.
    EfficientXML,
    /// Gzip compressed data format.
    Gzip,
    /// No encoding.
    Identity,
    /// Java archive network transfer format.
    Pack200Gzip,
}

/// HTTP content encoding scheme.
#[derive(Copy, Clone, Eq, PartialEq, Debug, Hash)]
pub enum ContentEncoding<'a> {
    /// Standard defined scheme.
    Std(StdContentEncoding),
    /// Unknown or nonstandard scheme with the contained name.
    ///
    /// The name is a slice of the text that was parsed, in the case in which it was written.
    /// Names of encodings are case-insensitive, so whoever compares it to another name has to
    /// ignore case.
    Other(&'a str),
}

/// What a `ContentEncoding` stands for: the scheme, or the characters of an unknown name.
pub enum ContentEncodingView {
    /// A standard scheme.
    Std(StdContentEncoding),
    /// An unknown scheme, with the characters of its name.
    Other(Seq<char>),
}

impl StdContentEncoding {
    /// The name under which the scheme is registered, in lower case.
    pub open spec fn name(self) -> Seq<char> {
        match self {
            StdContentEncoding::Brottli => "br"@,
            StdContentEncoding::Compress => "compress"@,
            StdContentEncoding::Deflate => "deflate"@,
            StdContentEncoding::EfficientXML => "exi"@,
            StdContentEncoding::Gzip => "gzip"@,
            StdContentEncoding::Identity => "identity"@,
            StdContentEncoding::Pack200Gzip => "pack200-gzip"@,
        }
    }

    /// Whether `token` is the scheme's name in some mix of upper and lower case.
    pub open spec fn is_named(self, token: Seq<char>) -> bool {
        eq_ignoring_ascii_case(token, self.name())
    }
}

/// The standard scheme that `token` stands for as it is written, surrounding white space
/// included: the one that it names, or no encoding where it is empty.
pub open spec fn std_encoding(token: Seq<char>) -> Option<StdContentEncoding> {
    if StdContentEncoding::Brottli.is_named(token) {
        Some(StdContentEncoding::Brottli)
    } else if StdContentEncoding::Compress.is_named(token) {
        Some(StdContentEncoding::Compress)
    } else if StdContentEncoding::Deflate.is_named(token) {
        Some(StdContentEncoding::Deflate)
    } else if StdContentEncoding::EfficientXML.is_named(token) {
        Some(StdContentEncoding::EfficientXML)
    } else if StdContentEncoding::Gzip.is_named(token) {
        Some(StdContentEncoding::Gzip)
    } else if StdContentEncoding::Identity.is_named(token) {
        Some(StdContentEncoding::Identity)
    } else if StdContentEncoding::Pack200Gzip.is_named(token) {
        Some(StdContentEncoding::Pack200Gzip)
    } else if token.len() == 0 {
        Some(StdContentEncoding::Identity)
    } else {
        None
    }
}

/// The encoding that one field of the header stands for: the standard scheme of the trimmed
/// field where it has one, else the trimmed field itself as an unknown name.
pub open spec fn classify(field: Seq<char>) -> ContentEncodingView {
    let token = trimmed(field);
    match std_encoding(token) {
        Some(scheme) => ContentEncodingView::Std(scheme),
        None => ContentEncodingView::Other(token),
    }
}

impl ContentEncodingView {
    /// Whether the value is one that parsing can give: an unknown name is not empty, neither
    /// begins nor ends with white space, and is not the name of a standard scheme.
    pub open spec fn wf(self) -> bool {
        match self {
            ContentEncodingView::Std(_) => true,
            ContentEncodingView::Other(name) => {
                &&& name.len() > 0
                &&& is_trimmed(name)
                &&& std_encoding(name) is None
            },
        }
    }
}

impl<'a> View for ContentEncoding<'a> {
    type V = ContentEncodingView;

    open spec fn view(&self) -> ContentEncodingView {
        match *self {
            ContentEncoding::Std(scheme) => ContentEncodingView::Std(scheme),
            ContentEncoding::Other(name) => ContentEncodingView::Other(name@),
        }
    }
}

/// What the names of the standard schemes hold.
proof fn lemma_names()
    ensures
        StdContentEncoding::Brottli.name() == seq!['b', 'r'],
        StdContentEncoding::Compress.name() == seq!['c', 'o', 'm', 'p', 'r', 'e', 's', 's'],
        StdContentEncoding::Deflate.name() == seq!['d', 'e', 'f', 'l', 'a', 't', 'e'],
        StdContentEncoding::EfficientXML.name() == seq!['e', 'x', 'i'],
        StdContentEncoding::Gzip.name() == seq!['g', 'z', 'i', 'p'],
        StdContentEncoding::Identity.name() == seq!['i', 'd', 'e', 'n', 't', 'i', 't', 'y'],
        StdContentEncoding::Pack200Gzip.name() == seq![
            'p',
            'a',
            'c',
            'k',
            '2',
            '0',
            '0',
            '-',
            'g',
            'z',
            'i',
            'p',
        ],
{
    reveal_strlit("br");
    reveal_strlit("compress");
    reveal_strlit("deflate");
    reveal_strlit("exi");
    reveal_strlit("gzip");
    reveal_strlit("identity");
    reveal_strlit("pack200-gzip");
    assert(StdContentEncoding::Brottli.name() =~= seq!['b', 'r']);
    assert(StdContentEncoding::Compress.name() =~= seq!['c', 'o', 'm', 'p', 'r', 'e', 's', 's']);
    assert(StdContentEncoding::Deflate.name() =~= seq!['d', 'e', 'f', 'l', 'a', 't', 'e']);
    assert(StdContentEncoding::EfficientXML.name() =~= seq!['e', 'x', 'i']);
    assert(StdContentEncoding::Gzip.name() =~= seq!['g', 'z', 'i', 'p']);
    assert(StdContentEncoding::Identity.name() =~= seq!['i', 'd', 'e', 'n', 't', 'i', 't', 'y']);
    assert(StdContentEncoding::Pack200Gzip.name() =~= seq![
        'p',
        'a',
        'c',
        'k',
        '2',
        '0',
        '0',
        '-',
        'g',
        'z',
        'i',
        'p',
    ]);
}

/// A token names at most one standard scheme, and `std_encoding` finds it.
pub proof fn lemma_name_decides(token: Seq<char>, scheme: StdContentEncoding)
    requires
        scheme.is_named(token),
    ensures
        std_encoding(token) == Some(scheme),
        token.len() > 0,
        is_trimmed(token),
{
    lemma_names();
    let first = token[0];
    let last = token[token.len() - 1];
    assert(ascii_lowercase(first) == ascii_lowercase(scheme.name()[0]));
    assert(ascii_lowercase(last) == ascii_lowercase(scheme.name()[token.len() - 1]));
}

/// `std_encoding` gives a scheme only for its name and, for no encoding, the empty token.
pub proof fn lemma_std_encoding_is_named(token: Seq<char>)
    ensures
        match std_encoding(token) {
            Some(scheme) => scheme.is_named(token) || (scheme == StdContentEncoding::Identity
                && token.len() == 0),
            None => token.len() > 0 && forall|scheme: StdContentEncoding|
                !#[trigger] scheme.is_named(token),
        },
{
}

/// A name of a standard scheme, in any mix of upper and lower case and with any white space
/// around it, stands for that scheme.
pub proof fn lemma_padded_name_is_std(
    lead: Seq<char>,
    token: Seq<char>,
    trail: Seq<char>,
    scheme: StdContentEncoding,
)
    requires
        all_whitespace(lead),
        all_whitespace(trail),
        scheme.is_named(token),
    ensures
        classify(lead + token + trail) == ContentEncodingView::Std(scheme),
{
    lemma_name_decides(token, scheme);
    lemma_trimmed_of_padded(lead, token, trail);
}

/// A field whose trimmed text names a standard scheme stands for that scheme.
pub proof fn lemma_name_is_std(field: Seq<char>, scheme: StdContentEncoding)
    requires
        scheme.is_named(trimmed(field)),
    ensures
        classify(field) == ContentEncodingView::Std(scheme),
{
    lemma_name_decides(trimmed(field), scheme);
}

/// A field whose trimmed text is not empty and names no standard scheme stands for an unknown
/// encoding of that name, as it is written.
pub proof fn lemma_unknown_name_is_other(field: Seq<char>)
    requires
        trimmed(field).len() > 0,
        forall|scheme: StdContentEncoding| !#[trigger] scheme.is_named(trimmed(field)),
    ensures
        classify(field) == ContentEncodingView::Other(trimmed(field)),
{
}

/// An empty field, and one of white space alone, stands for no encoding.
pub proof fn lemma_blank_is_identity(field: Seq<char>)
    requires
        all_whitespace(field),
    ensures
        classify(field) == ContentEncodingView::Std(StdContentEncoding::Identity),
{
    lemma_trimmed_of_whitespace(field);
    lemma_names();
}

/// Every field stands for a well-formed encoding.
pub proof fn lemma_classify_wf(field: Seq<char>)
    ensures
        classify(field).wf(),
{
    lemma_trimmed_splits(field);
}

impl FromStr for StdContentEncoding {
    type Err = ();

    /// Parses the name of a standard scheme, in any mix of upper and lower case. The empty
    /// string stands for no encoding. White space is not removed.
    fn from_str(s: &str) -> (r: Result<Self, ()>)
        ensures
            match r {
                Ok(scheme) => std_encoding(s@) == Some(scheme),
                Err(_) => std_encoding(s@) is None,
            },
    {
        // Values are case-insensitive [RFC7231§3.1.2.1].
        if eq_ignore_ascii_case(s, "br") {
            Ok(StdContentEncoding::Brottli)
        } else if eq_ignore_ascii_case(s, "compress") {
            Ok(StdContentEncoding::Compress)
        } else if eq_ignore_ascii_case(s, "deflate") {
            Ok(StdContentEncoding::Deflate)
        } else if eq_ignore_ascii_case(s, "exi") {
            Ok(StdContentEncoding::EfficientXML)
        } else if eq_ignore_ascii_case(s, "gzip") {
            Ok(StdContentEncoding::Gzip)
        } else if eq_ignore_ascii_case(s, "identity") {
            Ok(StdContentEncoding::Identity)
        } else if eq_ignore_ascii_case(s, "pack200-gzip") {
            Ok(StdContentEncoding::Pack200Gzip)
        } else if s.is_empty() {
            // Assume empty means identity [RFC7231§5.3.4].
            Ok(StdContentEncoding::Identity)
        } else {
            Err(())
        }
    }
}

impl<'a> ContentEncoding<'a> {
    /// Whether the value is one that parsing can give: see `ContentEncodingView::wf`.
    pub open spec fn wf(&self) -> bool {
        self@.wf()
    }

    /// Parse a new `ContentEncoding` from the given string: one field of the header, with or
    /// without white space around it. An unknown name borrows from `s`.
    pub fn new(s: &'a str) -> (r: Self)
        ensures
            r@ == classify(s@),
            r.wf(),
    {
        let token = trim(s);
        proof {
            lemma_classify_wf(s@);
        }
        match StdContentEncoding::from_str(token) {
            Ok(scheme) => ContentEncoding::Std(scheme),
            Err(_) => ContentEncoding::Other(token),
        }
    }
}

} // verus!
