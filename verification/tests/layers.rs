use uhttp_content_encoding::ContentEncoding::{self, Other, Std};
use uhttp_content_encoding::StdContentEncoding::{
    Brottli, Deflate, EfficientXML, Gzip, Identity, Pack200Gzip,
};
use uhttp_content_encoding::content_encodings;

fn collect(s: &str) -> Vec<ContentEncoding<'_>> {
    let mut layers = Vec::new();
    let mut ce = content_encodings(s);
    while let Some(layer) = ce.next() {
        layers.push(layer);
    }
    assert!(ce.next().is_none());
    layers
}

#[test]
fn test_ces() {
    let mut ce = content_encodings("deflate, br, identity");
    assert_eq!(ce.next().unwrap(), Std(Identity));
    assert_eq!(ce.next().unwrap(), Std(Brottli));
    assert_eq!(ce.next().unwrap(), Std(Deflate));
    assert!(ce.next().is_none());

    let mut ce = content_encodings("identity");
    assert_eq!(ce.next().unwrap(), Std(Identity));
    assert!(ce.next().is_none());

    let mut ce = content_encodings("");
    assert_eq!(ce.next().unwrap(), Std(Identity));
    assert!(ce.next().is_none());

    let mut ce = content_encodings("\t\t,,            ,     ,");
    assert_eq!(ce.next().unwrap(), Std(Identity));
    assert_eq!(ce.next().unwrap(), Std(Identity));
    assert_eq!(ce.next().unwrap(), Std(Identity));
    assert_eq!(ce.next().unwrap(), Std(Identity));
    assert_eq!(ce.next().unwrap(), Std(Identity));
    assert!(ce.next().is_none());

    let mut ce = content_encodings("Br, exi,pack200-GZip   ");
    assert_eq!(ce.next().unwrap(), Std(Pack200Gzip));
    assert_eq!(ce.next().unwrap(), Std(EfficientXML));
    assert_eq!(ce.next().unwrap(), Std(Brottli));
    assert!(ce.next().is_none());

    let mut ce = content_encodings("\t\t\t   gzip");
    assert_eq!(ce.next().unwrap(), Std(Gzip));
    assert!(ce.next().is_none());

    let mut ce = content_encodings("\tabc\t\t, def  ");
    assert_eq!(ce.next().unwrap(), Other("def"));
    assert_eq!(ce.next().unwrap(), Other("abc"));
    assert!(ce.next().is_none());
}

#[test]
fn outermost_layer_comes_first() {
    let mut encs = content_encodings(" gzip, identity, custom-enc");
    assert_eq!(encs.next(), Some(Other("custom-enc")));
    assert_eq!(encs.next(), Some(Std(Identity)));
    assert_eq!(encs.next(), Some(Std(Gzip)));
    assert_eq!(encs.next(), None);
}

#[test]
fn empty_value_is_one_identity_layer() {
    assert_eq!(collect(""), vec![Std(Identity)]);
}

#[test]
fn blank_fields_count() {
    assert_eq!(collect("\t\t,,            ,     ,"), vec![Std(Identity); 5]);
    assert_eq!(collect(","), vec![Std(Identity); 2]);
    assert_eq!(collect(",,,"), vec![Std(Identity); 4]);
}

#[test]
fn mixed_case_layers() {
    assert_eq!(
        collect("Br, exi,pack200-GZip   "),
        vec![Std(Pack200Gzip), Std(EfficientXML), Std(Brottli)]
    );
}

#[test]
fn unknown_layers_are_trimmed() {
    assert_eq!(collect("\tabc\t\t, def  "), vec![Other("def"), Other("abc")]);
}

#[test]
fn exhausted_layers_stay_exhausted() {
    let mut ce = content_encodings("gzip,br");
    assert_eq!(ce.next(), Some(Std(Brottli)));
    assert_eq!(ce.next(), Some(Std(Gzip)));
    for _ in 0..4 {
        assert_eq!(ce.next(), None);
    }
}

#[test]
fn one_layer_more_than_commas() {
    let values = [
        "",
        ",",
        "gzip",
        "gzip,",
        ",gzip",
        "a,b,c,d,e,f,g",
        " , , ",
        "ÆØ,БД,❤",
        "x,\u{a0},y,,",
    ];
    for value in values {
        let commas = value.chars().filter(|c| *c == ',').count();
        assert_eq!(collect(value).len(), commas + 1);
    }
}

#[test]
fn two_fields_come_out_reversed() {
    let fields = ["", "gzip", " BR ", "zstd", "\tx y\t", "ÆØБД❤", "  "];
    for a in fields {
        for b in fields {
            let value = format!("{},{}", a, b);
            let mut expected = collect(b);
            expected.extend(collect(a));
            assert_eq!(expected.len(), 2);
            assert_eq!(collect(&value), expected);
            assert_eq!(
                collect(&value),
                vec![ContentEncoding::new(b), ContentEncoding::new(a)]
            );
        }
    }
}

#[test]
fn joined_values_come_out_reversed() {
    let a = "gzip, x-custom ,";
    let b = "br,,deflate";
    let value = format!("{},{}", a, b);
    let mut expected = collect(b);
    expected.extend(collect(a));
    assert_eq!(collect(&value), expected);
    assert_eq!(
        expected,
        vec![
            Std(Deflate),
            Std(Identity),
            Std(Brottli),
            Std(Identity),
            Other("x-custom"),
            Std(Gzip)
        ]
    );
}

#[test]
fn layers_agree_with_splitting_by_hand() {
    let values = [
        "gzip, br ,ÆØ,, Б❤ ,identity",
        "\u{2003}compress\u{2003},\u{1680}",
        "a\u{2c}b",
        "€,€€,€",
    ];
    for value in values {
        let expected: Vec<ContentEncoding<'_>> =
            value.split(',').rev().map(ContentEncoding::new).collect();
        assert_eq!(collect(value), expected);
    }
}

#[test]
fn unknown_layers_borrow_from_the_value() {
    let value = String::from("one, two ,three");
    let mut ce = content_encodings(&value);
    let start = value.as_ptr() as usize;
    let mut offsets = Vec::new();
    while let Some(layer) = ce.next() {
        match layer {
            Other(name) => offsets.push((name.as_ptr() as usize - start, name.len())),
            Std(_) => panic!("a standard scheme for an unknown name"),
        }
    }
    assert_eq!(offsets, vec![(10, 5), (5, 3), (0, 3)]);
}
