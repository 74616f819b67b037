//! The comma-separated fields of a header value.

use vstd::prelude::*;
use vstd::string::*;
use vstd::utf8::*;

verus! {

/// How often `c` occurs in `s`.
pub open spec fn occurrences(s: Seq<char>, c: char) -> nat
    decreases s.len(),
{
    if s.len() == 0 {
        0
    } else {
        occurrences(s.drop_last(), c) + if s.last() == c {
            1nat
        } else {
            0nat
        }
    }
}

/// The fields of `s`, in the order in which they are written. A comma ends one field and
/// begins the next; any other character is added to the field that it stands in. Fields may
/// be empty, and there is always at least one.
pub open spec fn fields(s: Seq<char>) -> Seq<Seq<char>>
    decreases s.len(),
{
    if s.len() == 0 {
        seq![Seq::empty()]
    } else {
        let before = fields(s.drop_last());
        if s.last() == ',' {
            before.push(Seq::empty())
        } else {
            before.drop_last().push(before.last().push(s.last()))
        }
    }
}

/// The given fields written one after the other with a comma between neighbours.
pub open spec fn joined(parts: Seq<Seq<char>>) -> Seq<char>
    decreases parts.len(),
{
    if parts.len() == 0 {
        Seq::empty()
    } else if parts.len() == 1 {
        parts[0]
    } else {
        joined(parts.drop_last()) + seq![','] + parts.last()
    }
}

/// There is one field more than there are commas.
pub proof fn lemma_fields_len(s: Seq<char>)
    ensures
        fields(s).len() == occurrences(s, ',') + 1,
    decreases s.len(),
{
    if s.len() > 0 {
        lemma_fields_len(s.drop_last());
    }
}

/// A sequence without a comma is its own single field.
pub proof fn lemma_fields_without_comma(s: Seq<char>)
    requires
        !s.contains(','),
    ensures
        fields(s) == seq![s],
    decreases s.len(),
{
    if s.len() == 0 {
        assert(s =~= Seq::empty());
    } else {
        let init = s.drop_last();
        assert(s.last() == s[s.len() - 1]);
        assert forall|i: int| 0 <= i < init.len() implies init[i] != ',' by {
            assert(init[i] == s[i]);
        }
        lemma_fields_without_comma(init);
        assert(fields(init).drop_last().push(init.push(s.last())) =~= seq![init.push(s.last())]);
        assert(init.push(s.last()) =~= s);
    }
}

/// The fields of two sequences with a comma between them are the fields of the first followed
/// by the fields of the second.
pub proof fn lemma_fields_concat(a: Seq<char>, b: Seq<char>)
    ensures
        fields(a + seq![','] + b) == fields(a) + fields(b),
    decreases b.len(),
{
    let whole = a + seq![','] + b;
    if b.len() == 0 {
        assert(whole.drop_last() =~= a);
        assert(fields(a).push(Seq::empty()) =~= fields(a) + fields(b));
    } else {
        let init = b.drop_last();
        assert(whole.drop_last() =~= a + seq![','] + init);
        assert(whole.last() == b.last());
        lemma_fields_concat(a, init);
        lemma_fields_len(init);
        let before = fields(a) + fields(init);
        if b.last() == ',' {
            assert(before.push(Seq::empty()) =~= fields(a) + fields(init).push(Seq::empty()));
        } else {
            assert(before.last() == fields(init).last());
            assert(before.drop_last().push(before.last().push(b.last())) =~= fields(a) + fields(
                init,
            ).drop_last().push(fields(init).last().push(b.last())));
        }
    }
}

/// No field holds a comma.
pub proof fn lemma_fields_hold_no_comma(s: Seq<char>)
    ensures
        forall|i: int| 0 <= i < fields(s).len() ==> !(#[trigger] fields(s)[i]).contains(','),
    decreases s.len(),
{
    if s.len() == 0 {
    } else {
        lemma_fields_hold_no_comma(s.drop_last());
        lemma_fields_len(s.drop_last());
        let before = fields(s.drop_last());
        let grown = before.last().push(s.last());
        if s.last() != ',' {
            assert forall|j: int| 0 <= j < grown.len() implies grown[j] != ',' by {
                if j < before.last().len() {
                    assert(before.last()[j] == grown[j]);
                }
            }
        }
    }
}

/// Joining the fields of a sequence with commas gives the sequence back.
pub proof fn lemma_joined_fields(s: Seq<char>)
    ensures
        joined(fields(s)) == s,
    decreases s.len(),
{
    if s.len() == 0 {
        assert(s =~= Seq::empty());
    } else {
        let init = s.drop_last();
        lemma_joined_fields(init);
        lemma_fields_len(init);
        let before = fields(init);
        if s.last() == ',' {
            let after = before.push(Seq::empty());
            assert(after.drop_last() =~= before);
            assert(joined(after) =~= init + seq![','] + Seq::empty());
            assert(init + seq![','] + Seq::<char>::empty() =~= s);
        } else {
            let after = before.drop_last().push(before.last().push(s.last()));
            assert(after.drop_last() =~= before.drop_last());
            if before.len() == 1 {
                assert(joined(after) == before[0].push(s.last()));
                assert(init.push(s.last()) =~= s);
            } else {
                let head = joined(before.drop_last()) + seq![','];
                assert(joined(after) == head + before.last().push(s.last()));
                assert(head + before.last().push(s.last()) =~= (head + before.last()).push(
                    s.last(),
                ));
                assert(init.push(s.last()) =~= s);
            }
        }
    }
}

/// Comma-free parts, at least one of them, are exactly the fields of what joining them gives.
pub proof fn lemma_fields_of_joined(parts: Seq<Seq<char>>)
    requires
        parts.len() > 0,
        forall|i: int| 0 <= i < parts.len() ==> !(#[trigger] parts[i]).contains(','),
    ensures
        fields(joined(parts)) == parts,
    decreases parts.len(),
{
    if parts.len() == 1 {
        lemma_fields_without_comma(parts[0]);
        assert(seq![parts[0]] =~= parts);
    } else {
        let init = parts.drop_last();
        assert forall|i: int| 0 <= i < init.len() implies !(#[trigger] init[i]).contains(',') by {
            assert(init[i] == parts[i]);
        }
        lemma_fields_of_joined(init);
        lemma_fields_concat(joined(init), parts.last());
        lemma_fields_without_comma(parts.last());
        assert(init + seq![parts.last()] =~= parts);
    }
}

/// A sequence of characters with a comma in it has the byte `0x2C` in its UTF-8 encoding.
proof fn lemma_comma_shows_in_bytes(s: Seq<char>)
    requires
        s.contains(','),
    ensures
        encode_utf8(s).contains(0x2Cu8),
    decreases s.len(),
{
    let i = choose|i: int| 0 <= i < s.len() && s[i] == ',';
    let head = encode_scalar(s[0] as u32);
    let tail = encode_utf8(s.drop_first());
    if i == 0 {
        assert(leading_byte_width_1(0x2Cu32) == 0x2Cu8) by (bit_vector);
        assert((head + tail)[0] == 0x2Cu8);
    } else {
        assert(s.drop_first()[i - 1] == ',');
        lemma_comma_shows_in_bytes(s.drop_first());
        let j = choose|j: int| 0 <= j < tail.len() && tail[j] == 0x2Cu8;
        assert((head + tail)[head.len() + j] == 0x2Cu8);
    }
}

/// The one sequence of characters whose UTF-8 encoding is the single byte `0x2C` is the comma.
proof fn lemma_comma_byte_is_comma(s: Seq<char>)
    requires
        encode_utf8(s) == seq![0x2Cu8],
    ensures
        s == seq![','],
{
    let comma = seq![','];
    assert(encode_utf8(comma) =~= seq![0x2Cu8]) by {
        assert(leading_byte_width_1(0x2Cu32) == 0x2Cu8) by (bit_vector);
        assert(comma.drop_first() =~= Seq::empty());
        reveal_with_fuel(encode_utf8, 2);
    }
    encode_utf8_decode_utf8(s);
    encode_utf8_decode_utf8(comma);
}

/// Splits `s` at its last comma. The second component is the last field of `s`. The first is
/// what stands before the comma in front of that field, or `None` where `s` has no comma. Both
/// borrow from `s`.
pub fn split_last<'a>(s: &'a str) -> (r: (Option<&'a str>, &'a str))
    ensures
        !r.1@.contains(','),
        match r.0 {
            Some(head) => s@ == head@ + seq![','] + r.1@,
            None => s@ == r.1@,
        },
{
    // In UTF-8 the byte of the comma stands for the comma wherever it occurs: the bytes of a
    // longer character all lie above the ASCII range. So the bytes are searched, from the end.
    let bytes = s.as_bytes();
    let mut i = bytes.len();
    while i > 0
        invariant
            bytes@ == s.spec_bytes(),
            i <= bytes@.len(),
            forall|j: int| i <= j < bytes@.len() ==> bytes@[j] != 0x2Cu8,
        decreases i,
    {
        i = i - 1;
        if bytes[i] == 0x2C {
            proof {
                encode_utf8_valid_utf8(s@);
                is_char_boundary_iff_not_is_continuation_byte(bytes@, i as int);
            }
            let (head, rest) = s.split_at(i);
            proof {
                encode_utf8_valid_utf8(rest@);
                reveal_with_fuel(is_char_boundary, 2);
                reveal_with_fuel(valid_utf8, 2);
                assert(rest.spec_bytes()[0] == 0x2Cu8);
                assert(is_char_boundary(rest.spec_bytes(), 1));
            }
            let parts = rest.split_at(1);
            let last = parts.1;
            proof {
                let comma = parts.0;
                encode_utf8_decode_utf8(s@);
                encode_utf8_decode_utf8(head@);
                encode_utf8_decode_utf8(rest@);
                encode_utf8_decode_utf8(comma@);
                encode_utf8_decode_utf8(last@);
                decode_utf8_split(bytes@, i as int);
                decode_utf8_split(rest.spec_bytes(), 1);
                assert(comma.spec_bytes() =~= seq![0x2Cu8]);
                lemma_comma_byte_is_comma(comma@);
                assert(s@ =~= head@ + seq![','] + last@);
                if last@.contains(',') {
                    lemma_comma_shows_in_bytes(last@);
                    let j = choose|j: int|
                        0 <= j < last.spec_bytes().len() && last.spec_bytes()[j] == 0x2Cu8;
                    assert(bytes@[i + 1 + j] == 0x2Cu8);
                }
            }
            return (Some(head), last);
        }
    }
    proof {
        if s@.contains(',') {
            lemma_comma_shows_in_bytes(s@);
        }
    }
    (None, s)
}

} // verus!
