//! The layers of encoding that a `Content-Encoding` header value lists.

use crate::encoding::{classify, lemma_classify_wf, ContentEncoding, ContentEncodingView};
use crate::fields::{
    fields, lemma_fields_concat, lemma_fields_len, lemma_fields_without_comma, occurrences,
    split_last,
};
use vstd::prelude::*;

verus! {

/// The encodings that the header value `s` lists, in the order in which they have to be
/// decoded: the header names them in the order in which they were applied, so the last field
/// comes first.
pub open spec fn layers(s: Seq<char>) -> Seq<ContentEncodingView> {
    let written = fields(s);
    Seq::new(written.len(), |i: int| classify(written[written.len() - 1 - i]))
}

/// A header value lists one layer more than it has commas.
pub proof fn lemma_layers_len(s: Seq<char>)
    ensures
        layers(s).len() == occurrences(s, ',') + 1,
{
    lemma_fields_len(s);
}

/// A header value without a comma lists the one layer that it stands for as a field.
pub proof fn lemma_layers_without_comma(s: Seq<char>)
    requires
        !s.contains(','),
    ensures
        layers(s) == seq![classify(s)],
{
    lemma_fields_without_comma(s);
    assert(layers(s) =~= seq![classify(s)]);
}

/// The layers of two header values with a comma between them are the layers of the second
/// followed by the layers of the first.
pub proof fn lemma_layers_concat(a: Seq<char>, b: Seq<char>)
    ensures
        layers(a + seq![','] + b) == layers(b) + layers(a),
{
    lemma_fields_concat(a, b);
    lemma_fields_len(a);
    lemma_fields_len(b);
    assert(layers(a + seq![','] + b) =~= layers(b) + layers(a));
}

/// Two fields with a comma between them are decoded in reverse: the layer of the second,
/// then the layer of the first.
pub proof fn lemma_layers_reversed(a: Seq<char>, b: Seq<char>)
    requires
        !a.contains(','),
        !b.contains(','),
    ensures
        layers(a + seq![','] + b) == layers(b) + layers(a),
        layers(a + seq![','] + b) == seq![classify(b), classify(a)],
{
    lemma_layers_concat(a, b);
    lemma_layers_without_comma(a);
    lemma_layers_without_comma(b);
    assert(seq![classify(b)] + seq![classify(a)] =~= seq![classify(b), classify(a)]);
}

/// Every layer of a header value is a well-formed encoding.
pub proof fn lemma_layers_wf(s: Seq<char>)
    ensures
        forall|i: int| 0 <= i < layers(s).len() ==> (#[trigger] layers(s)[i]).wf(),
{
    let written = fields(s);
    assert forall|i: int| 0 <= i < layers(s).len() implies (#[trigger] layers(s)[i]).wf() by {
        lemma_classify_wf(written[written.len() - 1 - i]);
    }
}

/// The layers of a header value that have not been handed out yet, outermost first.
#[derive(Clone, Debug)]
pub struct ContentEncodings<'a> {
    /// The part of the header value whose fields are still to come; `None` once the first
    /// field has been handed out.
    rest: Option<&'a str>,
}

impl<'a> View for ContentEncodings<'a> {
    type V = Seq<ContentEncodingView>;

    /// The layers that are still to come, in the order in which `next` hands them out.
    closed spec fn view(&self) -> Seq<ContentEncodingView> {
        match self.rest {
            Some(rest) => layers(rest@),
            None => Seq::empty(),
        }
    }
}

impl<'a> ContentEncodings<'a> {
    /// Hands out the next layer, parsed from its field only now, or `None` when every layer
    /// has been handed out. An unknown name borrows from the header value.
    pub fn next(&mut self) -> (r: Option<ContentEncoding<'a>>)
        ensures
            match r {
                Some(layer) => {
                    &&& old(self)@.len() > 0
                    &&& layer@ == old(self)@.first()
                    &&& layer.wf()
                    &&& final(self)@ == old(self)@.drop_first()
                },
                None => old(self)@.len() == 0 && final(self)@.len() == 0,
            },
    {
        match self.rest {
            None => None,
            Some(rest) => {
                let (head, last) = split_last(rest);
                proof {
                    lemma_layers_without_comma(last@);
                    match head {
                        Some(h) => {
                            lemma_layers_concat(h@, last@);
                            assert((layers(last@) + layers(h@)).drop_first() =~= layers(h@));
                        },
                        None => {
                            assert(layers(last@).drop_first() =~= Seq::empty());
                        },
                    }
                }
                self.rest = head;
                Some(ContentEncoding::new(last))
            },
        }
    }
}

/// Create an iterator over content encoding layers from the given string in the form used by
/// the `Content-Encoding` header field: names of encodings with commas between them.
///
/// Encodings are yielded in the order they must be decoded, with the outermost layer yielded
/// first and the innermost layer yielded last.
pub fn content_encodings<'a>(s: &'a str) -> (r: ContentEncodings<'a>)
    ensures
        r@ == layers(s@),
        r@.len() == occurrences(s@, ',') + 1,
{
    proof {
        lemma_layers_len(s@);
    }
    ContentEncodings { rest: Some(s) }
}

} // verus!
