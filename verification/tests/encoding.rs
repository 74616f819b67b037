use std::collections::HashSet;

use uhttp_content_encoding::ContentEncoding::{self, Other, Std};
use uhttp_content_encoding::StdContentEncoding::{
    self, Brottli, Compress, Deflate, EfficientXML, Gzip, Identity, Pack200Gzip,
};

#[test]
fn test_ce() {
    assert_eq!(ContentEncoding::new("br"), Std(Brottli));
    assert_eq!(ContentEncoding::new("\t\t\rBr  "), Std(Brottli));
    assert_eq!(ContentEncoding::new("compress"), Std(Compress));
    assert_eq!(ContentEncoding::new("  COMpress "), Std(Compress));
    assert_eq!(ContentEncoding::new("deflate"), Std(Deflate));
    assert_eq!(ContentEncoding::new("\t\n dEFLAte "), Std(Deflate));
    assert_eq!(ContentEncoding::new("exi"), Std(EfficientXML));
    assert_eq!(ContentEncoding::new("\tEXI\t"), Std(EfficientXML));
    assert_eq!(ContentEncoding::new("gzip"), Std(Gzip));
    assert_eq!(ContentEncoding::new("  \tgZIP"), Std(Gzip));
    assert_eq!(ContentEncoding::new("identity"), Std(Identity));
    assert_eq!(ContentEncoding::new("\niDENtiTY\r\r\r "), Std(Identity));
    assert_eq!(ContentEncoding::new(""), Std(Identity));
    assert_eq!(ContentEncoding::new("    \t "), Std(Identity));
    assert_eq!(ContentEncoding::new("pack200-gzip"), Std(Pack200Gzip));
    assert_eq!(ContentEncoding::new("  PaCK200-GZip "), Std(Pack200Gzip));
    assert_eq!(ContentEncoding::new("ÆØБД❤"), Other("ÆØБД❤"));
}

#[test]
fn every_name_in_every_case_with_padding() {
    let names = [
        ("br", Brottli),
        ("compress", Compress),
        ("deflate", Deflate),
        ("exi", EfficientXML),
        ("gzip", Gzip),
        ("identity", Identity),
        ("pack200-gzip", Pack200Gzip),
    ];
    let pads = ["", " ", "\t", "\r\n", " \t \n", "\u{a0}", "\u{2003} \u{3000}"];
    for (name, scheme) in names {
        let upper = name.to_ascii_uppercase();
        let mut mixed = String::new();
        for (i, c) in name.chars().enumerate() {
            mixed.push(if i % 2 == 0 { c.to_ascii_uppercase() } else { c });
        }
        for spelling in [name, upper.as_str(), mixed.as_str()] {
            for lead in pads {
                for trail in pads {
                    let field = format!("{}{}{}", lead, spelling, trail);
                    assert_eq!(ContentEncoding::new(&field), Std(scheme));
                }
            }
        }
    }
}

#[test]
fn unknown_name_is_kept_as_written() {
    assert_eq!(ContentEncoding::new("custom-enc"), Other("custom-enc"));
    assert_eq!(ContentEncoding::new("  Custom-ENC\t"), Other("Custom-ENC"));
    assert_eq!(ContentEncoding::new(" x-gzip "), Other("x-gzip"));
    assert_eq!(ContentEncoding::new("gzip2"), Other("gzip2"));
    assert_eq!(ContentEncoding::new("gzi"), Other("gzi"));
    assert_eq!(ContentEncoding::new("g zip"), Other("g zip"));
    assert_eq!(ContentEncoding::new("\u{2003}zstd\u{3000}"), Other("zstd"));
    assert_ne!(ContentEncoding::new("Custom"), Other("custom"));
}

#[test]
fn unknown_name_borrows_from_the_input() {
    let field = String::from("  \tsnappy  ");
    match ContentEncoding::new(&field) {
        Other(name) => {
            assert_eq!(name, "snappy");
            assert_eq!(name.as_ptr(), field[3..].as_ptr());
        }
        Std(_) => panic!("a standard scheme for an unknown name"),
    }
}

#[test]
fn only_ascii_letters_are_folded() {
    // U+212A, the Kelvin sign, has `k` as its lower case, but not as its ASCII lower case.
    assert_eq!(
        ContentEncoding::new("pac\u{212a}200-gzip"),
        Other("pac\u{212a}200-gzip")
    );
    // U+0130 has `i` as the start of its lower case.
    assert_eq!(ContentEncoding::new("ex\u{130}"), Other("ex\u{130}"));
    // Characters 32 below the lower-case letters that are no capital letters.
    assert_eq!(ContentEncoding::new("g\u{5a}ip"), Std(Gzip));
    assert_eq!(ContentEncoding::new("g\u{5b}ip"), Other("g\u{5b}ip"));
    assert_eq!(ContentEncoding::new("pack200\rgzip"), Other("pack200\rgzip"));
}

#[test]
fn blank_fields_are_identity() {
    for field in ["", " ", "\t", "\n", "\r", " \t\n\r ", "\u{b}\u{c}", "\u{85}\u{a0}\u{1680}"] {
        assert_eq!(ContentEncoding::new(field), Std(Identity));
    }
}

#[test]
fn from_str_names_each_scheme() {
    assert_eq!("br".parse(), Ok(Brottli));
    assert_eq!("BR".parse(), Ok(Brottli));
    assert_eq!("compress".parse(), Ok(Compress));
    assert_eq!("Deflate".parse(), Ok(Deflate));
    assert_eq!("eXi".parse(), Ok(EfficientXML));
    assert_eq!("GZIP".parse(), Ok(Gzip));
    assert_eq!("identity".parse(), Ok(Identity));
    assert_eq!("".parse(), Ok(Identity));
    assert_eq!("Pack200-Gzip".parse(), Ok(Pack200Gzip));
}

#[test]
fn from_str_rejects_what_is_no_name() {
    assert_eq!("zstd".parse::<StdContentEncoding>(), Err(()));
    assert_eq!("b".parse::<StdContentEncoding>(), Err(()));
    assert_eq!("brr".parse::<StdContentEncoding>(), Err(()));
    assert_eq!("pack200_gzip".parse::<StdContentEncoding>(), Err(()));
    assert_eq!("ÆØБД❤".parse::<StdContentEncoding>(), Err(()));
}

#[test]
fn from_str_does_not_trim() {
    assert_eq!(" gzip".parse::<StdContentEncoding>(), Err(()));
    assert_eq!("gzip ".parse::<StdContentEncoding>(), Err(()));
    assert_eq!(" ".parse::<StdContentEncoding>(), Err(()));
}

#[test]
fn encodings_compare_and_hash() {
    let mut seen = HashSet::new();
    assert!(seen.insert(ContentEncoding::new("gzip")));
    assert!(!seen.insert(ContentEncoding::new(" GZIP ")));
    assert!(seen.insert(ContentEncoding::new("zstd")));
    assert!(!seen.insert(ContentEncoding::new("\tzstd")));
    assert!(seen.insert(ContentEncoding::new("Zstd")));
    assert!(seen.contains(&Std(Gzip)));
    assert!(seen.contains(&Other("zstd")));
    assert!(!seen.contains(&Std(Identity)));

    let mut schemes = HashSet::new();
    for scheme in [Brottli, Compress, Deflate, EfficientXML, Gzip, Identity, Pack200Gzip] {
        assert!(schemes.insert(scheme));
    }
    assert_eq!(schemes.len(), 7);
    let copy = Gzip;
    assert_eq!(copy, Gzip);
    assert_eq!(format!("{:?}", Std(Pack200Gzip)), "Std(Pack200Gzip)");
}
