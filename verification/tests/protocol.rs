use mobile_cam::server::{Commands, JSONBody, Quality};
use std::str::FromStr;

fn body(id: usize, text: &str) -> JSONBody {
    JSONBody { body: text.to_string(), id }
}

#[test]
fn readme_examples_parse() {
    assert_eq!(Commands::parse("a"), Ok(Commands::A));
    assert_eq!(Commands::parse("b"), Ok(Commands::B));
    assert_eq!(Commands::parse("c:%4,7,9"), Ok(Commands::C { id: vec![4, 7, 9] }));
    assert_eq!(Commands::parse("d"), Ok(Commands::D));
    assert_eq!(Commands::parse("e:1"), Ok(Commands::E { id: 1 }));
    assert_eq!(
        Commands::parse("f:1:#{\"type\":\"offer\",\"sdp\":\"v=0...\"}"),
        Ok(Commands::F(body(1, "{\"type\":\"offer\",\"sdp\":\"v=0...\"}")))
    );
    assert_eq!(
        Commands::parse("g:1:#{\"candidate\":\"candidate:...\"}"),
        Ok(Commands::G(body(1, "{\"candidate\":\"candidate:...\"}")))
    );
    assert_eq!(
        Commands::parse("h:4:#{\"candidate\":\"candidate:...\"}"),
        Ok(Commands::H(body(4, "{\"candidate\":\"candidate:...\"}")))
    );
    assert_eq!(Commands::parse("i:4:1"), Ok(Commands::I { id: 4, quality: Quality::High }));
    assert_eq!(
        Commands::parse("j:#{\"zoom\":1.5,\"rotate\":90,\"x\":4.475,\"y\":2.345}"),
        Ok(Commands::J { body: "{\"zoom\":1.5,\"rotate\":90,\"x\":4.475,\"y\":2.345}".to_string() })
    );
    assert_eq!(Commands::parse("k:4"), Ok(Commands::K { id: 4 }));
    assert_eq!(Commands::parse("l:4"), Ok(Commands::L { id: 4 }));
}

#[test]
fn commands_are_written_as_the_readme_shows() {
    assert_eq!(Commands::A.to_text(), "a");
    assert_eq!(Commands::B.to_text(), "b");
    assert_eq!(Commands::C { id: vec![4, 7, 9] }.to_text(), "c:%4,7,9");
    assert_eq!(Commands::C { id: vec![] }.to_text(), "c:%");
    assert_eq!(Commands::D.to_text(), "d");
    assert_eq!(Commands::E { id: 1 }.to_text(), "e:1");
    assert_eq!(Commands::F(body(1, "{}")).to_text(), "f:1:#{}");
    assert_eq!(Commands::G(body(12, "x:y")).to_text(), "g:12:#x:y");
    assert_eq!(Commands::H(body(4, "")).to_text(), "h:4:#");
    assert_eq!(Commands::I { id: 4, quality: Quality::Low }.to_text(), "i:4:3");
    assert_eq!(Commands::J { body: "{\"zoom\":2}".to_string() }.to_text(), "j:#{\"zoom\":2}");
    assert_eq!(Commands::K { id: 4 }.to_text(), "k:4");
    assert_eq!(Commands::L { id: 1234567 }.to_text(), "l:1234567");
}

#[test]
fn written_commands_read_back() {
    let all = vec![
        Commands::A,
        Commands::B,
        Commands::C { id: vec![0] },
        Commands::C { id: vec![3, 1, 4, 1, 5] },
        Commands::D,
        Commands::E { id: usize::MAX },
        Commands::F(body(0, "a:b:#c")),
        Commands::G(body(9, "")),
        Commands::H(body(10, "{\"k\":1}")),
        Commands::I { id: 2, quality: Quality::Medium },
        Commands::J { body: "#:%,".to_string() },
        Commands::K { id: 0 },
        Commands::L { id: 77 },
    ];
    for c in all {
        assert_eq!(Commands::parse(&c.to_text()), Ok(c.clone()));
    }
}

#[test]
fn empty_streamer_list_does_not_read_back() {
    assert_eq!(Commands::parse("c:%"), Err(()));
}

#[test]
fn invalid_commands_are_errors() {
    assert_eq!(Commands::parse(""), Err(()));
    assert_eq!(Commands::parse("z"), Err(()));
    assert_eq!(Commands::parse("e:"), Err(()));
    assert_eq!(Commands::parse("e:x"), Err(()));
    assert_eq!(Commands::parse("e:-1"), Err(()));
    assert_eq!(Commands::parse("e:18446744073709551616"), Err(()));
    assert_eq!(Commands::parse("f:1:{}"), Err(()));
    assert_eq!(Commands::parse("f:1"), Err(()));
    assert_eq!(Commands::parse("f:x:#{}"), Err(()));
    assert_eq!(Commands::parse("i:4"), Err(()));
    assert_eq!(Commands::parse("i:4:0"), Err(()));
    assert_eq!(Commands::parse("i:4:4"), Err(()));
    assert_eq!(Commands::parse("j:{}"), Err(()));
    assert_eq!(Commands::parse("c:4,7"), Err(()));
    assert_eq!(Commands::parse("c:%4,,7"), Err(()));
    assert_eq!(Commands::parse("c:%4,"), Err(()));
}

#[test]
fn lenient_forms_are_accepted() {
    // The letter is followed by any one character, and the rest is read after it.
    assert_eq!(Commands::parse("e55"), Ok(Commands::E { id: 5 }));
    assert_eq!(Commands::parse("aXYZ"), Ok(Commands::A));
    assert_eq!(Commands::parse("e:+7"), Ok(Commands::E { id: 7 }));
    assert_eq!(Commands::parse("e:007"), Ok(Commands::E { id: 7 }));
    assert_eq!(Commands::parse("i:4:2:extra"), Ok(Commands::I { id: 4, quality: Quality::Medium }));
    assert_eq!(Commands::parse("k:18446744073709551615"), Ok(Commands::K { id: usize::MAX }));
}

#[test]
fn from_str_matches_parse() {
    assert_eq!(Commands::from_str("k:4"), Ok(Commands::K { id: 4 }));
    assert_eq!("i:1:2".parse::<Commands>(), Ok(Commands::I { id: 1, quality: Quality::Medium }));
    assert_eq!(JSONBody::from_str("5:#x"), Ok(body(5, "x")));
    assert_eq!(Quality::from_str("3"), Ok(Quality::Low));
}

#[test]
fn quality_numbers() {
    assert_eq!(Quality::try_from(1), Ok(Quality::High));
    assert_eq!(Quality::try_from(2), Ok(Quality::Medium));
    assert_eq!(Quality::try_from(3), Ok(Quality::Low));
    assert_eq!(Quality::try_from(0), Err(()));
    assert_eq!(Quality::try_from(4), Err(()));
    assert_eq!(Quality::Medium.to_usize(), 2);
    assert_eq!(Quality::Low.to_text(), "3");
    assert_eq!(Quality::parse("1"), Ok(Quality::High));
    assert_eq!(Quality::parse("+2"), Ok(Quality::Medium));
    assert_eq!(Quality::parse("high"), Err(()));
    assert_eq!(Quality::default(), Quality::High);
    assert!(Quality::High < Quality::Low);
}

#[test]
fn json_body_text_and_parse() {
    assert_eq!(body(3, "{\"a\":1}").to_text(), "3:#{\"a\":1}");
    assert_eq!(JSONBody::parse("3:#a:b"), Ok(body(3, "a:b")));
    assert_eq!(JSONBody::parse("3:#"), Ok(body(3, "")));
    assert_eq!(JSONBody::parse("3"), Err(()));
    assert_eq!(JSONBody::parse(":#x"), Err(()));
    assert_eq!(JSONBody::parse("3:x"), Err(()));
}

#[test]
fn quality_std_conversions() {
    assert_eq!(usize::from(Quality::Low), 3);
    assert_eq!(<Quality as TryFrom<usize>>::try_from(2), Ok(Quality::Medium));
    assert_eq!(<Quality as TryFrom<usize>>::try_from(7), Err(()));
}
